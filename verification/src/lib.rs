//! A verified engine for table-driven word inflection: grammatical categories
//! are combined by a mixed-radix encoding into one flat index against a dense
//! suffix table, and an ordered list of irregular-form overrides is layered
//! on top of the regular table with first-match precedence.

pub mod encoding;
pub mod inflection;
pub mod latin;

use vstd::prelude::*;

use crate::encoding::CategorySet;
use crate::encoding::flat_index;
use crate::encoding::in_bounds;
use crate::encoding::valid_sizes;
use crate::inflection::Inflection;
use crate::inflection::regular_form;
use crate::inflection::string_opt_view;

verus! {

/// One grammatical axis: a closed, ordered set of mutually exclusive values,
/// each with a stable ordinal assigned by declaration order.
pub trait InflectionalCategory: Sized {
    /// The ordinal of this value on its axis.
    spec fn ordinal(&self) -> int;

    /// How many values the axis has.
    spec fn count() -> int;

    /// Law: every value's ordinal lies in `[0, count)`; invalid ordinals are
    /// not representable.
    proof fn lemma_ordinal_in_range(&self)
        ensures
            0 <= self.ordinal() < Self::count(),
    ;

    /// The ordinal of this value, as a machine integer.
    fn index(&self) -> (r: usize)
        ensures
            r == self.ordinal(),
    ;

    /// All values of the axis, in declaration order: the value at position
    /// `i` is the one whose ordinal is `i`.
    fn variants() -> (r: Vec<Self>)
        ensures
            r@.len() == Self::count(),
            forall|i: int| 0 <= i < r@.len() ==> (#[trigger] r@[i]).ordinal() == i,
    ;
}

/// An ordered tuple of categories that together identify one inflectional
/// cell, encoded against the fixed axis order of its inflection type.
pub trait InflectionalCategorySet: Sized {
    /// The sizes of the axes, in their fixed declared order.
    spec fn axis_sizes() -> Seq<int>;

    /// The per-axis ordinals of this value, in the same order.
    spec fn ordinals(&self) -> Seq<int>;

    /// Law: the axes are well formed and every value stays on them.
    proof fn lemma_well_formed(&self)
        ensures
            Self::axis_sizes().len() > 0,
            valid_sizes(Self::axis_sizes()),
            in_bounds(Self::axis_sizes(), self.ordinals()),
    ;

    /// The flat table index of this value under the mixed-radix encoding.
    fn index(&self) -> (r: usize)
        ensures
            r == flat_index(Self::axis_sizes(), self.ordinals()),
    ;

    /// This value as a bare tuple of ordinals, ready to address a table.
    fn category_set(&self) -> (r: CategorySet)
        ensures
            r@ == self.ordinals(),
    ;
}

/// One irregular exception: the category set it overrides, and the full
/// surface form that replaces the regular outcome there, or an explicit
/// absence that suppresses the regular form.
pub struct IrregularForm(pub CategorySet, pub Option<String>);

/// What the ordered irregular-form list says about a queried category set:
/// nothing, or the override of the first entry whose set equals the query.
pub open spec fn find_irregular(forms: Seq<IrregularForm>, cs: Seq<int>) -> Option<
    Option<Seq<char>>,
>
    decreases forms.len(),
{
    if forms.len() == 0 {
        None
    } else if forms[0].0@ == cs {
        Some(string_opt_view(forms[0].1))
    } else {
        find_irregular(forms.skip(1), cs)
    }
}

/// A word: a citation form, the root used for regular suffixation, the
/// inflection pattern it follows, and — for irregular words — an ordered
/// list of exceptions scanned before the regular table.
pub struct Word {
    pub inflection: Inflection,
    pub lemma: String,
    pub root: String,
    pub regular: bool,
    pub irregular_forms: Vec<IrregularForm>,
}

impl Word {
    /// A word is usable when its inflection pattern is.
    pub open spec fn wf(&self) -> bool {
        self.inflection.wf()
    }

    /// What resolving this word at a category set yields: a regular word
    /// always uses its pattern's table; an irregular word gives its first
    /// matching exception precedence and falls back to the table when no
    /// exception matches.
    pub open spec fn resolve_spec(&self, cs: Seq<int>) -> Option<Seq<char>> {
        if self.regular {
            regular_form(self.inflection.table(), self.inflection.sizes(), self.root@, cs)
        } else {
            match find_irregular(self.irregular_forms@, cs) {
                Some(override_form) => override_form,
                None => regular_form(
                    self.inflection.table(),
                    self.inflection.sizes(),
                    self.root@,
                    cs,
                ),
            }
        }
    }

    /// The inflected surface form of this word at a category set, or
    /// nothing where no valid form exists.
    pub fn inflect(&self, categories: &CategorySet) -> (r: Option<String>)
        requires
            self.wf(),
            in_bounds(self.inflection.sizes(), categories@),
        ensures
            string_opt_view(r) == self.resolve_spec(categories@),
    {
        if self.regular {
            self.inflection.inflect(self.root.as_str(), categories)
        } else {
            let ghost forms = self.irregular_forms@;
            let ghost cs = categories@;
            let mut i: usize = 0;
            proof {
                assert(forms.skip(0) =~= forms);
            }
            while i < self.irregular_forms.len()
                invariant
                    i <= forms.len(),
                    !self.regular,
                    forms == self.irregular_forms@,
                    cs == categories@,
                    find_irregular(forms.skip(i as int), cs) == find_irregular(forms, cs),
                decreases forms.len() - i,
            {
                proof {
                    assert(forms.skip(i as int)[0] == forms[i as int]);
                    assert(forms.skip(i as int).skip(1) =~= forms.skip(i + 1));
                }
                if self.irregular_forms[i].0.matches(categories) {
                    proof {
                        assert(find_irregular(forms, cs) == Some(
                            string_opt_view(forms[i as int].1),
                        ));
                    }
                    match &self.irregular_forms[i].1 {
                        Some(form) => {
                            return Some(form.clone());
                        },
                        None => {
                            return None;
                        },
                    }
                }
                i += 1;
            }
            proof {
                assert(forms.skip(forms.len() as int) =~= Seq::<IrregularForm>::empty());
            }
            self.inflection.inflect(self.root.as_str(), categories)
        }
    }
}

/// Law: among the irregular entries whose category set equals a query, the
/// first-declared one decides the result, whatever later entries hold.
pub proof fn lemma_first_match_wins(forms: Seq<IrregularForm>, cs: Seq<int>, i: int)
    requires
        0 <= i < forms.len(),
        forms[i].0@ == cs,
        forall|k: int| 0 <= k < i ==> (#[trigger] forms[k].0@) != cs,
    ensures
        find_irregular(forms, cs) == Some(string_opt_view(forms[i].1)),
    decreases i,
{
    if i > 0 {
        assert(forms[0].0@ != cs);
        assert(forms.skip(1)[i - 1] == forms[i]);
        assert(forall|k: int| 0 <= k < i - 1 ==> (#[trigger] forms.skip(1)[k].0@) != cs);
        lemma_first_match_wins(forms.skip(1), cs, i - 1);
    }
}

/// Law: if two irregular entries of an irregular word match the same
/// category set, resolution returns the first-declared one's override and
/// never the later one's.
pub proof fn lemma_irregular_precedence(w: Word, cs: Seq<int>, i: int, j: int)
    requires
        !w.regular,
        0 <= i < j < w.irregular_forms@.len(),
        w.irregular_forms@[i].0@ == cs,
        w.irregular_forms@[j].0@ == cs,
        forall|k: int| 0 <= k < i ==> (#[trigger] w.irregular_forms@[k].0@) != cs,
    ensures
        w.resolve_spec(cs) == string_opt_view(w.irregular_forms@[i].1),
{
    lemma_first_match_wins(w.irregular_forms@, cs, i);
}

/// A query that no entry matches finds nothing in the list.
pub proof fn lemma_no_match_finds_nothing(forms: Seq<IrregularForm>, cs: Seq<int>)
    requires
        forall|k: int| 0 <= k < forms.len() ==> (#[trigger] forms[k].0@) != cs,
    ensures
        find_irregular(forms, cs) == None::<Option<Seq<char>>>,
    decreases forms.len(),
{
    if forms.len() > 0 {
        assert(forall|k: int| 0 <= k < forms.skip(1).len() ==> (#[trigger] forms.skip(1)[k].0@)
            != cs);
        lemma_no_match_finds_nothing(forms.skip(1), cs);
    }
}

/// Law: a word queried at a category set absent from its irregular list
/// resolves to exactly what its regular inflection pattern produces there.
pub proof fn lemma_irregular_fallback(w: Word, cs: Seq<int>)
    requires
        forall|k: int|
            0 <= k < w.irregular_forms@.len() ==> (#[trigger] w.irregular_forms@[k].0@) != cs,
    ensures
        w.resolve_spec(cs) == regular_form(
            w.inflection.table(),
            w.inflection.sizes(),
            w.root@,
            cs,
        ),
{
    if !w.regular {
        lemma_no_match_finds_nothing(w.irregular_forms@, cs);
    }
}

} // verus!
