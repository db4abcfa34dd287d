//! Mixed-radix ("row-major") encoding of per-axis category ordinals into a
//! single flat table index, together with its inverse and the proofs that the
//! two form a bijection between ordinal tuples and `[0, product of sizes)`.

use vstd::prelude::*;
use vstd::arithmetic::div_mod::lemma_fundamental_div_mod;
use vstd::arithmetic::div_mod::lemma_fundamental_div_mod_converse;

verus! {

/// The elements of a sequence of machine integers, as mathematical integers.
pub open spec fn int_view(v: Seq<usize>) -> Seq<int> {
    Seq::new(v.len(), |i: int| v[i] as int)
}

/// Axis sizes are valid when every axis has at least one variant.
pub open spec fn valid_sizes(sizes: Seq<int>) -> bool {
    forall|i: int| 0 <= i < sizes.len() ==> 1 <= #[trigger] sizes[i]
}

/// `ords` picks one variant ordinal per axis of `sizes`.
pub open spec fn in_bounds(sizes: Seq<int>, ords: Seq<int>) -> bool {
    &&& ords.len() == sizes.len()
    &&& forall|i: int| 0 <= i < ords.len() ==> 0 <= #[trigger] ords[i] < sizes[i]
}

/// The number of cells of a dense table over axes `sizes`: the product of all
/// the sizes.
pub open spec fn cell_count(sizes: Seq<int>) -> int
    decreases sizes.len(),
{
    if sizes.len() == 0 {
        1
    } else {
        sizes[0] * cell_count(sizes.skip(1))
    }
}

/// Row-major mixed-radix encoding: the last axis varies fastest, and the
/// stride of each axis is the product of the sizes that follow it.
pub open spec fn flat_index(sizes: Seq<int>, ords: Seq<int>) -> int
    decreases sizes.len(),
{
    if sizes.len() == 0 {
        0
    } else {
        ords[0] * cell_count(sizes.skip(1)) + flat_index(sizes.skip(1), ords.skip(1))
    }
}

/// The inverse of `flat_index`: repeated division and remainder by the
/// strides, outermost axis first.
pub open spec fn unflatten(sizes: Seq<int>, idx: int) -> Seq<int>
    decreases sizes.len(),
{
    if sizes.len() == 0 {
        Seq::empty()
    } else {
        seq![idx / cell_count(sizes.skip(1))] + unflatten(sizes.skip(1), idx % cell_count(sizes.skip(1)))
    }
}

/// A table over at least one valid axis has at least one cell.
pub proof fn lemma_cell_count_pos(sizes: Seq<int>)
    requires
        valid_sizes(sizes),
    ensures
        cell_count(sizes) >= 1,
    decreases sizes.len(),
{
    if sizes.len() > 0 {
        assert(valid_sizes(sizes.skip(1)));
        lemma_cell_count_pos(sizes.skip(1));
        assert(sizes[0] * cell_count(sizes.skip(1)) >= 1) by (nonlinear_arith)
            requires
                sizes[0] >= 1,
                cell_count(sizes.skip(1)) >= 1,
        ;
    }
}

/// Appending an axis multiplies the cell count by its size.
pub proof fn lemma_cell_count_push(sizes: Seq<int>, x: int)
    ensures
        cell_count(sizes.push(x)) == cell_count(sizes) * x,
    decreases sizes.len(),
{
    if sizes.len() == 0 {
        assert(sizes.push(x) =~= seq![x]);
        assert(seq![x].skip(1) =~= Seq::<int>::empty());
        assert(cell_count(Seq::<int>::empty()) == 1);
        assert(cell_count(seq![x]) == seq![x][0] * cell_count(seq![x].skip(1)));
        assert(cell_count(sizes.push(x)) == x);
    } else {
        assert(sizes.push(x).skip(1) =~= sizes.skip(1).push(x));
        lemma_cell_count_push(sizes.skip(1), x);
        assert(cell_count(sizes.push(x)) == sizes[0] * cell_count(sizes.skip(1).push(x)));
        assert(cell_count(sizes.push(x)) == sizes[0] * (cell_count(sizes.skip(1)) * x));
        assert(sizes[0] * (cell_count(sizes.skip(1)) * x) == (sizes[0] * cell_count(sizes.skip(1)))
            * x) by (nonlinear_arith);
        assert(cell_count(sizes) == sizes[0] * cell_count(sizes.skip(1)));
    }
}

/// The cell count splits as the product of the counts of any prefix of the
/// axes and of the remaining axes.
pub proof fn lemma_cell_count_split(sizes: Seq<int>, i: int)
    requires
        0 <= i <= sizes.len(),
    ensures
        cell_count(sizes) == cell_count(sizes.take(i)) * cell_count(sizes.skip(i)),
    decreases i,
{
    if i == 0 {
        assert(sizes.take(0) =~= Seq::<int>::empty());
        assert(sizes.skip(0) =~= sizes);
    } else {
        lemma_cell_count_split(sizes, i - 1);
        assert(sizes.take(i) =~= sizes.take(i - 1).push(sizes[i - 1]));
        lemma_cell_count_push(sizes.take(i - 1), sizes[i - 1]);
        assert(sizes.skip(i - 1).skip(1) =~= sizes.skip(i));
        assert(cell_count(sizes.skip(i - 1)) == sizes[i - 1] * cell_count(sizes.skip(i)));
        assert(cell_count(sizes.take(i - 1)) * (sizes[i - 1] * cell_count(sizes.skip(i))) == (
        cell_count(sizes.take(i - 1)) * sizes[i - 1]) * cell_count(sizes.skip(i)))
            by (nonlinear_arith);
    }
}

/// Over valid axes, no prefix or suffix of the axes yields more cells than
/// the whole.
pub proof fn lemma_cell_count_monotone(sizes: Seq<int>, i: int)
    requires
        valid_sizes(sizes),
        0 <= i <= sizes.len(),
    ensures
        cell_count(sizes.take(i)) <= cell_count(sizes),
        cell_count(sizes.skip(i)) <= cell_count(sizes),
    decreases sizes.len(),
{
    lemma_cell_count_split(sizes, i);
    assert(valid_sizes(sizes.take(i)));
    assert(valid_sizes(sizes.skip(i)));
    lemma_cell_count_pos(sizes.take(i));
    lemma_cell_count_pos(sizes.skip(i));
    assert(cell_count(sizes.take(i)) <= cell_count(sizes) && cell_count(sizes.skip(i))
        <= cell_count(sizes)) by (nonlinear_arith)
        requires
            cell_count(sizes) == cell_count(sizes.take(i)) * cell_count(sizes.skip(i)),
            cell_count(sizes.take(i)) >= 1,
            cell_count(sizes.skip(i)) >= 1,
    ;
}

/// Appending one axis and one ordinal multiplies the index by the new axis
/// size and adds the new ordinal.
pub proof fn lemma_flat_index_push(sizes: Seq<int>, ords: Seq<int>, s: int, o: int)
    requires
        ords.len() == sizes.len(),
    ensures
        flat_index(sizes.push(s), ords.push(o)) == flat_index(sizes, ords) * s + o,
    decreases sizes.len(),
{
    if sizes.len() == 0 {
        assert(sizes.push(s) =~= seq![s]);
        assert(ords.push(o) =~= seq![o]);
        assert(seq![s].skip(1) =~= Seq::<int>::empty());
        assert(seq![o].skip(1) =~= Seq::<int>::empty());
        assert(cell_count(Seq::<int>::empty()) == 1);
        assert(flat_index(Seq::<int>::empty(), Seq::<int>::empty()) == 0);
        assert(flat_index(seq![s], seq![o]) == seq![o][0] * cell_count(seq![s].skip(1))
            + flat_index(seq![s].skip(1), seq![o].skip(1)));
        assert(flat_index(sizes.push(s), ords.push(o)) == o);
        assert(flat_index(sizes, ords) == 0);
    } else {
        assert(sizes.push(s).skip(1) =~= sizes.skip(1).push(s));
        assert(ords.push(o).skip(1) =~= ords.skip(1).push(o));
        lemma_flat_index_push(sizes.skip(1), ords.skip(1), s, o);
        lemma_cell_count_push(sizes.skip(1), s);
        assert(flat_index(sizes.push(s), ords.push(o)) == ords[0] * cell_count(
            sizes.skip(1).push(s),
        ) + flat_index(sizes.skip(1).push(s), ords.skip(1).push(o)));
        assert(flat_index(sizes.push(s), ords.push(o)) == ords[0] * (cell_count(sizes.skip(1)) * s)
            + (flat_index(sizes.skip(1), ords.skip(1)) * s + o));
        assert(ords[0] * (cell_count(sizes.skip(1)) * s) + (flat_index(sizes.skip(1), ords.skip(1))
            * s + o) == (ords[0] * cell_count(sizes.skip(1)) + flat_index(
            sizes.skip(1),
            ords.skip(1),
        )) * s + o) by (nonlinear_arith);
        assert(flat_index(sizes, ords) == ords[0] * cell_count(sizes.skip(1)) + flat_index(
            sizes.skip(1),
            ords.skip(1),
        ));
    }
}

/// The encoding never collides with another table's cells: every in-bounds
/// ordinal tuple lands inside `[0, cell_count)`.
pub proof fn lemma_flat_index_bounds(sizes: Seq<int>, ords: Seq<int>)
    requires
        valid_sizes(sizes),
        in_bounds(sizes, ords),
    ensures
        0 <= flat_index(sizes, ords) < cell_count(sizes),
    decreases sizes.len(),
{
    if sizes.len() > 0 {
        assert(valid_sizes(sizes.skip(1)));
        assert(in_bounds(sizes.skip(1), ords.skip(1)));
        lemma_flat_index_bounds(sizes.skip(1), ords.skip(1));
        lemma_cell_count_pos(sizes.skip(1));
        assert(0 <= ords[0] * cell_count(sizes.skip(1)) + flat_index(sizes.skip(1), ords.skip(1))
            < sizes[0] * cell_count(sizes.skip(1))) by (nonlinear_arith)
            requires
                0 <= flat_index(sizes.skip(1), ords.skip(1)) < cell_count(sizes.skip(1)),
                0 <= ords[0] < sizes[0],
                cell_count(sizes.skip(1)) >= 1,
        ;
    }
}

/// Law: decoding is a left inverse of encoding. Every in-bounds ordinal
/// tuple is recovered exactly from its flat index.
pub proof fn lemma_unflatten_flat_index(sizes: Seq<int>, ords: Seq<int>)
    requires
        valid_sizes(sizes),
        in_bounds(sizes, ords),
    ensures
        unflatten(sizes, flat_index(sizes, ords)) == ords,
    decreases sizes.len(),
{
    if sizes.len() == 0 {
        assert(unflatten(sizes, flat_index(sizes, ords)) =~= ords);
    } else {
        let c = cell_count(sizes.skip(1));
        assert(valid_sizes(sizes.skip(1)));
        assert(in_bounds(sizes.skip(1), ords.skip(1)));
        lemma_cell_count_pos(sizes.skip(1));
        lemma_flat_index_bounds(sizes.skip(1), ords.skip(1));
        let rest = flat_index(sizes.skip(1), ords.skip(1));
        let idx = flat_index(sizes, ords);
        lemma_fundamental_div_mod_converse(idx, c, ords[0], rest);
        lemma_unflatten_flat_index(sizes.skip(1), ords.skip(1));
        assert(unflatten(sizes, idx) =~= ords);
    }
}

/// Law: encoding is a left inverse of decoding. Every index in
/// `[0, cell_count)` decodes to an in-bounds ordinal tuple that encodes back
/// to that same index, so the encoding covers the range with no gaps.
pub proof fn lemma_flat_index_unflatten(sizes: Seq<int>, idx: int)
    requires
        valid_sizes(sizes),
        0 <= idx < cell_count(sizes),
    ensures
        in_bounds(sizes, unflatten(sizes, idx)),
        flat_index(sizes, unflatten(sizes, idx)) == idx,
    decreases sizes.len(),
{
    if sizes.len() == 0 {
        assert(unflatten(sizes, idx) =~= Seq::<int>::empty());
    } else {
        let c = cell_count(sizes.skip(1));
        assert(valid_sizes(sizes.skip(1)));
        lemma_cell_count_pos(sizes.skip(1));
        let q = idx / c;
        let r = idx % c;
        lemma_fundamental_div_mod(idx, c);
        assert(0 <= r < c) by (nonlinear_arith)
            requires
                c >= 1,
                r == idx % c,
        ;
        assert(0 <= q < sizes[0]) by (nonlinear_arith)
            requires
                idx == c * q + r,
                0 <= r < c,
                0 <= idx < sizes[0] * c,
                c >= 1,
        ;
        lemma_flat_index_unflatten(sizes.skip(1), r);
        let ords = unflatten(sizes, idx);
        assert(ords =~= seq![q] + unflatten(sizes.skip(1), r));
        assert(ords.skip(1) =~= unflatten(sizes.skip(1), r));
        assert(in_bounds(sizes, ords));
        assert(flat_index(sizes, ords) == q * c + r);
        assert(q * c == c * q) by (nonlinear_arith);
    }
}

/// One value of an ordered tuple of grammatical categories, held as the
/// ordinal that each category takes on its own axis.
pub struct CategorySet {
    pub ordinals: Vec<usize>,
}

impl View for CategorySet {
    type V = Seq<int>;

    open spec fn view(&self) -> Seq<int> {
        int_view(self.ordinals@)
    }
}

impl CategorySet {
    /// Two category sets are the same cell exactly when all their ordinals
    /// agree, axis by axis.
    pub fn matches(&self, other: &CategorySet) -> (r: bool)
        ensures
            r <==> self@ == other@,
    {
        if self.ordinals.len() != other.ordinals.len() {
            assert(self@.len() != other@.len());
            return false;
        }
        let mut i: usize = 0;
        while i < self.ordinals.len()
            invariant
                i <= self.ordinals.len(),
                self.ordinals.len() == other.ordinals.len(),
                forall|j: int| 0 <= j < i ==> self@[j] == other@[j],
            decreases self.ordinals.len() - i,
        {
            if self.ordinals[i] != other.ordinals[i] {
                assert(self@[i as int] != other@[i as int]);
                return false;
            }
            i += 1;
        }
        assert(self@ =~= other@);
        true
    }
}

/// The number of cells of a table over the axes `sizes[start..]`, as a
/// machine integer.
pub fn cell_count_from(sizes: &Vec<usize>, start: usize) -> (r: usize)
    requires
        valid_sizes(int_view(sizes@)),
        start <= sizes@.len(),
        cell_count(int_view(sizes@)) <= usize::MAX,
    ensures
        r == cell_count(int_view(sizes@).skip(start as int)),
    decreases sizes@.len() - start,
{
    proof {
        lemma_cell_count_monotone(int_view(sizes@), start as int);
        assert(valid_sizes(int_view(sizes@).skip(start as int)));
    }
    if start == sizes.len() {
        proof {
            assert(int_view(sizes@).skip(start as int) =~= Seq::<int>::empty());
        }
        1
    } else {
        let rest = cell_count_from(sizes, start + 1);
        proof {
            let ss = int_view(sizes@);
            assert(ss.skip(start as int).skip(1) =~= ss.skip(start as int + 1));
            assert(cell_count(ss.skip(start as int)) == ss[start as int] * cell_count(
                ss.skip(start as int + 1),
            ));
        }
        sizes[start] * rest
    }
}

/// Encode a category set against the axis sizes of its table: the flat
/// index of the cell that the set addresses.
pub fn encode(sizes: &Vec<usize>, categories: &CategorySet) -> (r: usize)
    requires
        valid_sizes(int_view(sizes@)),
        in_bounds(int_view(sizes@), categories@),
        cell_count(int_view(sizes@)) <= usize::MAX,
    ensures
        r == flat_index(int_view(sizes@), categories@),
{
    let ghost ss = int_view(sizes@);
    let ghost os = categories@;
    let mut acc: usize = 0;
    let mut i: usize = 0;
    proof {
        assert(ss.take(0) =~= Seq::<int>::empty());
        assert(os.take(0) =~= Seq::<int>::empty());
        lemma_cell_count_pos(ss.take(0));
    }
    while i < sizes.len()
        invariant
            i <= sizes@.len(),
            ss == int_view(sizes@),
            os == categories@,
            valid_sizes(ss),
            in_bounds(ss, os),
            cell_count(ss) <= usize::MAX,
            acc == flat_index(ss.take(i as int), os.take(i as int)),
            acc < cell_count(ss.take(i as int)),
        decreases sizes@.len() - i,
    {
        proof {
            assert(ss.take(i + 1) =~= ss.take(i as int).push(ss[i as int]));
            assert(os.take(i + 1) =~= os.take(i as int).push(os[i as int]));
            assert(valid_sizes(ss.take(i + 1)));
            assert(in_bounds(ss.take(i + 1), os.take(i + 1)));
            lemma_flat_index_push(ss.take(i as int), os.take(i as int), ss[i as int], os[i as int]);
            lemma_flat_index_bounds(ss.take(i + 1), os.take(i + 1));
            lemma_cell_count_monotone(ss, i + 1);
            assert(acc * ss[i as int] + os[i as int] < cell_count(ss.take(i + 1)));
        }
        acc = acc * sizes[i] + categories.ordinals[i];
        i += 1;
    }
    proof {
        assert(ss.take(sizes@.len() as int) =~= ss);
        assert(os.take(sizes@.len() as int) =~= os);
    }
    acc
}

/// Decode the ordinals of the axes `sizes[start..]` out of a flat index,
/// outermost axis first.
fn decode_from(sizes: &Vec<usize>, start: usize, idx: usize) -> (r: Vec<usize>)
    requires
        valid_sizes(int_view(sizes@)),
        start <= sizes@.len(),
        cell_count(int_view(sizes@)) <= usize::MAX,
        idx < cell_count(int_view(sizes@).skip(start as int)),
    ensures
        int_view(r@) == unflatten(int_view(sizes@).skip(start as int), idx as int),
    decreases sizes@.len() - start,
{
    let ghost ss = int_view(sizes@);
    if start == sizes.len() {
        let r: Vec<usize> = Vec::new();
        proof {
            assert(ss.skip(start as int) =~= Seq::<int>::empty());
            assert(int_view(r@) =~= unflatten(ss.skip(start as int), idx as int));
        }
        r
    } else {
        let c = cell_count_from(sizes, start + 1);
        proof {
            assert(valid_sizes(ss.skip(start as int + 1)));
            lemma_cell_count_pos(ss.skip(start as int + 1));
        }
        let o = idx / c;
        let rem = idx % c;
        proof {
            assert(ss.skip(start as int).skip(1) =~= ss.skip(start as int + 1));
            assert(cell_count(ss.skip(start as int)) == ss[start as int] * cell_count(
                ss.skip(start as int + 1),
            ));
            lemma_fundamental_div_mod(idx as int, c as int);
            assert(rem < c);
            assert(rem < cell_count(ss.skip(start as int + 1)));
        }
        let mut rest = decode_from(sizes, start + 1, rem);
        rest.insert(0, o);
        proof {
            assert(unflatten(ss.skip(start as int), idx as int) == seq![idx as int / c as int]
                + unflatten(ss.skip(start as int + 1), idx as int % c as int));
            assert(int_view(rest@) =~= unflatten(ss.skip(start as int), idx as int));
        }
        rest
    }
}

/// Decode a flat index back into the category set that addresses that cell.
pub fn decode(sizes: &Vec<usize>, idx: usize) -> (r: CategorySet)
    requires
        valid_sizes(int_view(sizes@)),
        cell_count(int_view(sizes@)) <= usize::MAX,
        idx < cell_count(int_view(sizes@)),
    ensures
        r@ == unflatten(int_view(sizes@), idx as int),
        in_bounds(int_view(sizes@), r@),
        flat_index(int_view(sizes@), r@) == idx,
{
    proof {
        assert(int_view(sizes@).skip(0) =~= int_view(sizes@));
        lemma_flat_index_unflatten(int_view(sizes@), idx as int);
    }
    let ordinals = decode_from(sizes, 0, idx);
    CategorySet { ordinals }
}

/// Enumerate every category set over the given axes, in encoding order: the
/// set at position `i` is exactly the one whose flat index is `i`, so the
/// enumeration visits every cell of the table exactly once.
pub fn enumerate_sets(sizes: &Vec<usize>) -> (r: Vec<CategorySet>)
    requires
        valid_sizes(int_view(sizes@)),
        cell_count(int_view(sizes@)) <= usize::MAX,
    ensures
        r@.len() == cell_count(int_view(sizes@)),
        forall|i: int|
            0 <= i < r@.len() ==> {
                &&& (#[trigger] r@[i])@ == unflatten(int_view(sizes@), i)
                &&& in_bounds(int_view(sizes@), r@[i]@)
                &&& flat_index(int_view(sizes@), r@[i]@) == i
            },
{
    let ghost ss = int_view(sizes@);
    let total = cell_count_from(sizes, 0);
    proof {
        assert(ss.skip(0) =~= ss);
    }
    let mut r: Vec<CategorySet> = Vec::new();
    let mut idx: usize = 0;
    while idx < total
        invariant
            idx <= total,
            ss == int_view(sizes@),
            valid_sizes(ss),
            cell_count(ss) <= usize::MAX,
            total == cell_count(ss),
            r@.len() == idx,
            forall|i: int|
                0 <= i < r@.len() ==> {
                    &&& (#[trigger] r@[i])@ == unflatten(ss, i)
                    &&& in_bounds(ss, r@[i]@)
                    &&& flat_index(ss, r@[i]@) == i
                },
        decreases total - idx,
    {
        let cs = decode(sizes, idx);
        r.push(cs);
        idx += 1;
    }
    r
}

/// The encoding of a three-axis tuple, written out with its strides: the
/// last axis has stride one, and each axis's stride is the product of the
/// sizes that follow it.
pub proof fn lemma_flat_index_triple(s0: int, s1: int, s2: int, o0: int, o1: int, o2: int)
    ensures
        flat_index(seq![s0, s1, s2], seq![o0, o1, o2]) == o0 * (s1 * s2) + o1 * s2 + o2,
{
    let ss = seq![s0, s1, s2];
    let os = seq![o0, o1, o2];
    assert(ss.skip(1) =~= seq![s1, s2]);
    assert(os.skip(1) =~= seq![o1, o2]);
    assert(seq![s1, s2].skip(1) =~= seq![s2]);
    assert(seq![o1, o2].skip(1) =~= seq![o2]);
    assert(seq![s2].skip(1) =~= Seq::<int>::empty());
    assert(seq![o2].skip(1) =~= Seq::<int>::empty());
    assert(cell_count(Seq::<int>::empty()) == 1);
    assert(cell_count(seq![s2]) == s2);
    assert(cell_count(seq![s1, s2]) == s1 * s2);
    assert(flat_index(Seq::<int>::empty(), Seq::<int>::empty()) == 0);
    assert(flat_index(seq![s2], seq![o2]) == o2);
    assert(flat_index(seq![s1, s2], seq![o1, o2]) == o1 * s2 + o2);
}

/// The cell count of a three-axis table, written out as the product of its
/// sizes.
pub proof fn lemma_cell_count_triple(s0: int, s1: int, s2: int)
    ensures
        cell_count(seq![s0, s1, s2]) == s0 * (s1 * s2),
{
    let ss = seq![s0, s1, s2];
    assert(ss.skip(1) =~= seq![s1, s2]);
    assert(seq![s1, s2].skip(1) =~= seq![s2]);
    assert(seq![s2].skip(1) =~= Seq::<int>::empty());
    assert(cell_count(Seq::<int>::empty()) == 1);
    assert(cell_count(seq![s2]) == s2);
    assert(cell_count(seq![s1, s2]) == s1 * s2);
}

/// The encoding of a four-axis tuple, written out with its strides.
pub proof fn lemma_flat_index_quadruple(
    s0: int,
    s1: int,
    s2: int,
    s3: int,
    o0: int,
    o1: int,
    o2: int,
    o3: int,
)
    ensures
        flat_index(seq![s0, s1, s2, s3], seq![o0, o1, o2, o3]) == o0 * (s1 * (s2 * s3)) + o1 * (s2
            * s3) + o2 * s3 + o3,
{
    let ss = seq![s0, s1, s2, s3];
    let os = seq![o0, o1, o2, o3];
    assert(ss.skip(1) =~= seq![s1, s2, s3]);
    assert(os.skip(1) =~= seq![o1, o2, o3]);
    lemma_flat_index_triple(s1, s2, s3, o1, o2, o3);
    assert(seq![s1, s2, s3].skip(1) =~= seq![s2, s3]);
    assert(seq![s2, s3].skip(1) =~= seq![s3]);
    assert(seq![s3].skip(1) =~= Seq::<int>::empty());
    assert(cell_count(Seq::<int>::empty()) == 1);
    assert(cell_count(seq![s3]) == s3);
    assert(cell_count(seq![s2, s3]) == s2 * s3);
    assert(cell_count(seq![s1, s2, s3]) == s1 * (s2 * s3));
}

/// Law: the encoding is injective. Two in-bounds ordinal tuples with the
/// same flat index are the same tuple.
pub proof fn lemma_flat_index_injective(sizes: Seq<int>, a: Seq<int>, b: Seq<int>)
    requires
        valid_sizes(sizes),
        in_bounds(sizes, a),
        in_bounds(sizes, b),
        flat_index(sizes, a) == flat_index(sizes, b),
    ensures
        a == b,
{
    lemma_unflatten_flat_index(sizes, a);
    lemma_unflatten_flat_index(sizes, b);
}

} // verus!
