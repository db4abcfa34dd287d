//! The verbal axes of Latin — person, number, voice and mood — in the fixed
//! axis order (person, number, voice, mood). No conjugation table is
//! declared yet: the axes shape tables to come.

use vstd::prelude::*;
use crate::InflectionalCategory;
use crate::InflectionalCategorySet;
use crate::encoding::CategorySet;
use crate::encoding::int_view;
use crate::encoding::lemma_flat_index_quadruple;

verus! {

/// Grammatical person.
#[derive(Clone, Copy, Debug, PartialEq, Eq, Structural)]
pub enum Person {
    First,
    Second,
    Third,
}

/// Grammatical number of a verb form.
#[derive(Clone, Copy, Debug, PartialEq, Eq, Structural)]
pub enum Number {
    Singular,
    Plural,
}

/// Grammatical voice.
#[derive(Clone, Copy, Debug, PartialEq, Eq, Structural)]
pub enum Voice {
    Active,
    Passive,
}

/// Grammatical mood.
#[derive(Clone, Copy, Debug, PartialEq, Eq, Structural)]
pub enum Mood {
    Indicative,
    Subjunctive,
    Imperative,
    Participle,
}

impl InflectionalCategory for Person {
    open spec fn ordinal(&self) -> int {
        match self {
            Person::First => 0,
            Person::Second => 1,
            Person::Third => 2,
        }
    }

    open spec fn count() -> int {
        3
    }

    proof fn lemma_ordinal_in_range(&self) {
    }

    fn index(&self) -> usize {
        match self {
            Person::First => 0,
            Person::Second => 1,
            Person::Third => 2,
        }
    }

    fn variants() -> (r: Vec<Self>) {
        let mut r: Vec<Person> = Vec::new();
        r.push(Person::First);
        r.push(Person::Second);
        r.push(Person::Third);
        proof {
            assert forall|i: int| 0 <= i < r@.len() implies (#[trigger] r@[i]).ordinal() == i by {
                assert(r@[0] == Person::First);
                assert(r@[1] == Person::Second);
                assert(r@[2] == Person::Third);
            }
        }
        r
    }
}

impl InflectionalCategory for Number {
    open spec fn ordinal(&self) -> int {
        match self {
            Number::Singular => 0,
            Number::Plural => 1,
        }
    }

    open spec fn count() -> int {
        2
    }

    proof fn lemma_ordinal_in_range(&self) {
    }

    fn index(&self) -> usize {
        match self {
            Number::Singular => 0,
            Number::Plural => 1,
        }
    }

    fn variants() -> (r: Vec<Self>) {
        let mut r: Vec<Number> = Vec::new();
        r.push(Number::Singular);
        r.push(Number::Plural);
        proof {
            assert forall|i: int| 0 <= i < r@.len() implies (#[trigger] r@[i]).ordinal() == i by {
                assert(r@[0] == Number::Singular);
                assert(r@[1] == Number::Plural);
            }
        }
        r
    }
}

impl InflectionalCategory for Voice {
    open spec fn ordinal(&self) -> int {
        match self {
            Voice::Active => 0,
            Voice::Passive => 1,
        }
    }

    open spec fn count() -> int {
        2
    }

    proof fn lemma_ordinal_in_range(&self) {
    }

    fn index(&self) -> usize {
        match self {
            Voice::Active => 0,
            Voice::Passive => 1,
        }
    }

    fn variants() -> (r: Vec<Self>) {
        let mut r: Vec<Voice> = Vec::new();
        r.push(Voice::Active);
        r.push(Voice::Passive);
        proof {
            assert forall|i: int| 0 <= i < r@.len() implies (#[trigger] r@[i]).ordinal() == i by {
                assert(r@[0] == Voice::Active);
                assert(r@[1] == Voice::Passive);
            }
        }
        r
    }
}

impl InflectionalCategory for Mood {
    open spec fn ordinal(&self) -> int {
        match self {
            Mood::Indicative => 0,
            Mood::Subjunctive => 1,
            Mood::Imperative => 2,
            Mood::Participle => 3,
        }
    }

    open spec fn count() -> int {
        4
    }

    proof fn lemma_ordinal_in_range(&self) {
    }

    fn index(&self) -> usize {
        match self {
            Mood::Indicative => 0,
            Mood::Subjunctive => 1,
            Mood::Imperative => 2,
            Mood::Participle => 3,
        }
    }

    fn variants() -> (r: Vec<Self>) {
        let mut r: Vec<Mood> = Vec::new();
        r.push(Mood::Indicative);
        r.push(Mood::Subjunctive);
        r.push(Mood::Imperative);
        r.push(Mood::Participle);
        proof {
            assert forall|i: int| 0 <= i < r@.len() implies (#[trigger] r@[i]).ordinal() == i by {
                assert(r@[0] == Mood::Indicative);
                assert(r@[1] == Mood::Subjunctive);
                assert(r@[2] == Mood::Imperative);
                assert(r@[3] == Mood::Participle);
            }
        }
        r
    }
}

/// The category set that determines a finite verb form: person, number,
/// voice and mood, in that axis order.
#[derive(Clone, Copy, Debug, PartialEq, Eq, Structural)]
pub struct VerbCategories(pub Person, pub Number, pub Voice, pub Mood);

impl InflectionalCategorySet for VerbCategories {
    open spec fn axis_sizes() -> Seq<int> {
        seq![3, 2, 2, 4]
    }

    open spec fn ordinals(&self) -> Seq<int> {
        seq![self.0.ordinal(), self.1.ordinal(), self.2.ordinal(), self.3.ordinal()]
    }

    proof fn lemma_well_formed(&self) {
        self.0.lemma_ordinal_in_range();
        self.1.lemma_ordinal_in_range();
        self.2.lemma_ordinal_in_range();
        self.3.lemma_ordinal_in_range();
    }

    fn index(&self) -> (r: usize) {
        proof {
            self.0.lemma_ordinal_in_range();
            self.1.lemma_ordinal_in_range();
            self.2.lemma_ordinal_in_range();
            self.3.lemma_ordinal_in_range();
            lemma_flat_index_quadruple(
                3,
                2,
                2,
                4,
                self.0.ordinal(),
                self.1.ordinal(),
                self.2.ordinal(),
                self.3.ordinal(),
            );
        }
        self.0.index() * 16 + self.1.index() * 8 + self.2.index() * 4 + self.3.index()
    }

    fn category_set(&self) -> (r: CategorySet) {
        let mut ordinals: Vec<usize> = Vec::new();
        ordinals.push(self.0.index());
        ordinals.push(self.1.index());
        ordinals.push(self.2.index());
        ordinals.push(self.3.index());
        proof {
            self.0.lemma_ordinal_in_range();
            self.1.lemma_ordinal_in_range();
            self.2.lemma_ordinal_in_range();
            self.3.lemma_ordinal_in_range();
            assert(int_view(ordinals@) =~= self.ordinals());
        }
        CategorySet { ordinals }
    }
}

} // verus!
