//! The dense suffix table and the inflection that owns it: table construction
//! with its shape invariants, suffix lookup through the flat encoding, and
//! the resolver that appends a looked-up suffix to a root.

use vstd::prelude::*;
use vstd::string::StringExecFns;
use crate::encoding::CategorySet;
use crate::encoding::cell_count;
use crate::encoding::encode;
use crate::encoding::enumerate_sets;
use crate::encoding::flat_index;
use crate::encoding::in_bounds;
use crate::encoding::int_view;
use crate::encoding::lemma_cell_count_monotone;
use crate::encoding::lemma_flat_index_bounds;
use crate::encoding::unflatten;
use crate::encoding::valid_sizes;

verus! {

/// The characters of an optional owned string, as an optional sequence.
pub open spec fn string_opt_view(s: Option<String>) -> Option<Seq<char>> {
    match s {
        Some(s) => Some(s@),
        None => None,
    }
}

/// A configuration defect found while building an inflection. These are
/// construction-time errors: a finished inflection can no longer fail.
#[derive(Clone, Copy, Debug, PartialEq, Eq, Structural)]
pub enum InflectionError {
    /// No axes were declared at all.
    NoAxes,
    /// Some declared axis has no variants.
    EmptyAxis,
    /// The suffix list does not hold exactly one entry per cell.
    SuffixCountMismatch,
}

/// A dense array of optional suffixes, one slot per category-set value,
/// addressed by the flat index of the set. An absent slot means that the
/// combination has no valid surface form.
#[derive(Debug)]
pub struct SuffixTable {
    slots: Vec<Option<String>>,
}

impl View for SuffixTable {
    type V = Seq<Option<Seq<char>>>;

    closed spec fn view(&self) -> Seq<Option<Seq<char>>> {
        Seq::new(self.slots@.len(), |i: int| string_opt_view(self.slots@[i]))
    }
}

impl SuffixTable {
    /// Wrap a suffix list as a table, slot for slot.
    pub fn new(slots: Vec<Option<String>>) -> (r: SuffixTable)
        ensures
            r@.len() == slots@.len(),
            forall|i: int| 0 <= i < slots@.len() ==> r@[i] == string_opt_view(#[trigger] slots@[i]),
    {
        SuffixTable { slots }
    }

    /// The number of slots.
    pub fn len(&self) -> (r: usize)
        ensures
            r == self@.len(),
    {
        self.slots.len()
    }

    /// The stored optional suffix at an in-range flat index.
    pub fn get(&self, idx: usize) -> (r: Option<&String>)
        requires
            idx < self@.len(),
        ensures
            match r {
                Some(s) => self@[idx as int] == Some(s@),
                None => self@[idx as int] is None,
            },
    {
        match &self.slots[idx] {
            Some(s) => Some(s),
            None => None,
        }
    }
}

/// What a suffix inflection produces for a root and a cell of its table:
/// the root with the cell's suffix appended, or nothing where the cell is
/// marked absent.
pub open spec fn regular_form(
    table: Seq<Option<Seq<char>>>,
    sizes: Seq<int>,
    root: Seq<char>,
    cs: Seq<int>,
) -> Option<Seq<char>> {
    match table[flat_index(sizes, cs)] {
        Some(suffix) => Some(root + suffix),
        None => None,
    }
}

/// One inflection pattern: the axis sizes that shape its table, and the
/// dense suffix table itself, built once and never mutated.
#[derive(Debug)]
pub struct Inflection {
    name: String,
    axis_sizes: Vec<usize>,
    table: SuffixTable,
}

impl Inflection {
    /// The sizes of the grammatical axes, outermost first.
    pub closed spec fn sizes(&self) -> Seq<int> {
        int_view(self.axis_sizes@)
    }

    /// The suffix table, one optional suffix per cell.
    pub closed spec fn table(&self) -> Seq<Option<Seq<char>>> {
        self.table@
    }

    /// The display name of the pattern.
    pub closed spec fn spec_name(&self) -> Seq<char> {
        self.name@
    }

    /// Shape invariant: at least one axis, no empty axis, and exactly one
    /// table slot for every combination of variants.
    pub open spec fn wf(&self) -> bool {
        &&& self.sizes().len() > 0
        &&& valid_sizes(self.sizes())
        &&& self.table().len() == cell_count(self.sizes())
        &&& cell_count(self.sizes()) <= usize::MAX
    }

    /// Build an inflection from its declarative description: the axis sizes
    /// in their fixed order, and the flat suffix list in row-major order
    /// (the last axis varies fastest). Construction fails, rather than
    /// coercing, on an empty axis list, an axis with no variants, or a
    /// suffix list whose length is not the product of the axis sizes.
    pub fn new(name: String, axis_sizes: Vec<usize>, suffixes: Vec<Option<String>>) -> (r: Result<
        Inflection,
        InflectionError,
    >)
        ensures
            r is Ok <==> {
                &&& axis_sizes@.len() > 0
                &&& valid_sizes(int_view(axis_sizes@))
                &&& suffixes@.len() == cell_count(int_view(axis_sizes@))
            },
            r == Err::<Inflection, InflectionError>(InflectionError::NoAxes) <==> axis_sizes@.len()
                == 0,
            r == Err::<Inflection, InflectionError>(InflectionError::EmptyAxis) <==> (
            axis_sizes@.len() > 0 && !valid_sizes(int_view(axis_sizes@))),
            r == Err::<Inflection, InflectionError>(InflectionError::SuffixCountMismatch) <==> {
                &&& axis_sizes@.len() > 0
                &&& valid_sizes(int_view(axis_sizes@))
                &&& suffixes@.len() != cell_count(int_view(axis_sizes@))
            },
            r matches Ok(inf) ==> {
                &&& inf.wf()
                &&& inf.sizes() == int_view(axis_sizes@)
                &&& inf.spec_name() == name@
                &&& inf.table().len() == suffixes@.len()
                &&& forall|i: int|
                    0 <= i < suffixes@.len() ==> inf.table()[i] == string_opt_view(
                        #[trigger] suffixes@[i],
                    )
            },
    {
        let ghost ss = int_view(axis_sizes@);
        if axis_sizes.len() == 0 {
            return Err(InflectionError::NoAxes);
        }
        let mut i: usize = 0;
        while i < axis_sizes.len()
            invariant
                i <= axis_sizes@.len(),
                ss == int_view(axis_sizes@),
                forall|j: int| 0 <= j < i ==> 1 <= #[trigger] ss[j],
            decreases axis_sizes@.len() - i,
        {
            if axis_sizes[i] == 0 {
                assert(ss[i as int] < 1);
                return Err(InflectionError::EmptyAxis);
            }
            i += 1;
        }
        assert(valid_sizes(ss));
        let n_suffixes = suffixes.len();
        let mut product: usize = 1;
        let mut k: usize = 0;
        proof {
            assert(ss.take(0) =~= Seq::<int>::empty());
        }
        while k < axis_sizes.len()
            invariant
                k <= axis_sizes@.len(),
                ss == int_view(axis_sizes@),
                valid_sizes(ss),
                product == cell_count(ss.take(k as int)),
                n_suffixes == suffixes@.len(),
            decreases axis_sizes@.len() - k,
        {
            proof {
                assert(ss.take(k + 1) =~= ss.take(k as int).push(ss[k as int]));
                crate::encoding::lemma_cell_count_push(ss.take(k as int), ss[k as int]);
            }
            match product.checked_mul(axis_sizes[k]) {
                Some(p) => {
                    product = p;
                },
                None => {
                    proof {
                        lemma_cell_count_monotone(ss, k + 1);
                        assert(cell_count(ss) >= cell_count(ss.take(k + 1)));
                    }
                    return Err(InflectionError::SuffixCountMismatch);
                },
            }
            k += 1;
        }
        proof {
            assert(ss.take(axis_sizes@.len() as int) =~= ss);
        }
        if suffixes.len() != product {
            return Err(InflectionError::SuffixCountMismatch);
        }
        Ok(Inflection { name, axis_sizes, table: SuffixTable::new(suffixes) })
    }

    /// The display name of the pattern.
    pub fn name(&self) -> (r: &String)
        ensures
            r@ == self.spec_name(),
    {
        &self.name
    }

    /// The axis sizes, in their declared order.
    pub fn axes(&self) -> (r: &Vec<usize>)
        ensures
            int_view(r@) == self.sizes(),
    {
        &self.axis_sizes
    }

    /// The number of cells of the suffix table.
    pub fn cells(&self) -> (r: usize)
        requires
            self.wf(),
        ensures
            r == cell_count(self.sizes()),
    {
        self.table.len()
    }

    /// Look up the stored optional suffix for a category set of this
    /// pattern. An absent slot means the combination has no valid form.
    pub fn suffix(&self, categories: &CategorySet) -> (r: Option<&String>)
        requires
            self.wf(),
            in_bounds(self.sizes(), categories@),
        ensures
            match r {
                Some(s) => self.table()[flat_index(self.sizes(), categories@)] == Some(s@),
                None => self.table()[flat_index(self.sizes(), categories@)] is None,
            },
    {
        proof {
            lemma_flat_index_bounds(self.sizes(), categories@);
        }
        let idx = encode(&self.axis_sizes, categories);
        self.table.get(idx)
    }

    /// Resolve a root against this pattern: the root with the looked-up
    /// suffix appended, or nothing where the slot is marked absent. An
    /// absent slot yields no form at all, never an empty-string append.
    pub fn inflect(&self, root: &str, categories: &CategorySet) -> (r: Option<String>)
        requires
            self.wf(),
            in_bounds(self.sizes(), categories@),
        ensures
            string_opt_view(r) == regular_form(self.table(), self.sizes(), root@, categories@),
    {
        match self.suffix(categories) {
            Some(suffix) => Some(root.to_owned().concat(suffix.as_str())),
            None => None,
        }
    }

    /// Every category set of this pattern, in encoding order: the set at
    /// position `i` addresses exactly the table cell `i`, so walking the
    /// result walks the whole paradigm once.
    pub fn category_sets(&self) -> (r: Vec<CategorySet>)
        requires
            self.wf(),
        ensures
            r@.len() == cell_count(self.sizes()),
            forall|i: int|
                0 <= i < r@.len() ==> {
                    &&& (#[trigger] r@[i])@ == unflatten(self.sizes(), i)
                    &&& in_bounds(self.sizes(), r@[i]@)
                    &&& flat_index(self.sizes(), r@[i]@) == i
                },
    {
        enumerate_sets(&self.axis_sizes)
    }
}

} // verus!
