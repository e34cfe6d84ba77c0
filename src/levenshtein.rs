//! The distance engine: a dynamic-programming table over two sequences.
use crate::metric::{lemma_distance_bounds, lev, subst_cost};
use crate::table::{cell, cells, set_cell, zeros, Table};
use vstd::laws_eq::obeys_concrete_eq;
use vstd::pervasive::strictly_cloned;
use vstd::prelude::*;
use vstd::std_specs::iter::IteratorSpec;
use vstd::string::axiom_spec_iter;

verus! {

/// Elements that `==` compares by equality, and that clone to themselves.
pub open spec fn plain_elements<T: PartialEq + Clone>() -> bool {
    &&& obeys_concrete_eq::<T>()
    &&& forall|x: T, y: T| #[trigger] strictly_cloned(x, y) ==> x == y
}

/// Whether a distance table over sequences of these lengths can be built:
/// the distances fit in `u32`, and the number of cells in `isize`.
pub open spec fn fits(len_a: nat, len_b: nat) -> bool {
    &&& len_a < u32::MAX
    &&& len_b < u32::MAX
    &&& (len_a + 1) * (len_b + 1) <= isize::MAX
}

/// Whether sequences of these lengths can be compared: the executable form
/// of [`fits`].
pub fn fits_lengths(len_a: usize, len_b: usize) -> (r: bool)
    ensures
        r == fits(len_a as nat, len_b as nat),
{
    if len_a >= u32::MAX as usize || len_b >= u32::MAX as usize {
        return false;
    }
    let rows: u64 = len_a as u64 + 1;
    let cols: u64 = len_b as u64 + 1;
    assert(rows * cols <= u32::MAX * u32::MAX) by (nonlinear_arith)
        requires
            rows <= u32::MAX,
            cols <= u32::MAX,
    ;
    rows * cols <= isize::MAX as u64
}

/// The engine that computes the edit distance between two sequences.
#[derive(Debug)]
pub struct Levenshtein<T: Eq + Clone> {
    matrix: Table,
    a: Vec<T>,
    b: Vec<T>,
    dim_a: usize,
    dim_b: usize,
}

impl<T: Eq + Clone> Levenshtein<T> {
    /// The first sequence.
    pub closed spec fn seq_a(&self) -> Seq<T> {
        self.a@
    }

    /// The second sequence.
    pub closed spec fn seq_b(&self) -> Seq<T> {
        self.b@
    }

    /// The table, row by row: row `i` belongs to the first `i` elements of
    /// the first sequence, column `j` to the first `j` of the second.
    pub closed spec fn table(&self) -> Seq<Seq<u32>> {
        cells(self.matrix)
    }

    /// The table has one row more than the first sequence has elements and one
    /// column more than the second, and its border counts up from 0.
    pub closed spec fn wf(&self) -> bool {
        &&& fits(self.a@.len(), self.b@.len())
        &&& self.dim_a == self.a@.len() + 1
        &&& self.dim_b == self.b@.len() + 1
        &&& self.table().len() == self.dim_a
        &&& forall|i: int| 0 <= i < self.dim_a ==> (#[trigger] self.table()[i]).len() == self.dim_b
        &&& forall|i: int| 0 <= i < self.dim_a ==> #[trigger] self.table()[i][0] == i
        &&& forall|j: int| 0 <= j < self.dim_b ==> #[trigger] self.table()[0][j] == j
    }

    /// Every cell holds the distance between the prefixes it belongs to.
    pub open spec fn filled(&self) -> bool {
        forall|i: int, j: int|
            0 <= i <= self.seq_a().len() && 0 <= j <= self.seq_b().len() ==> #[trigger] self.table()[i][j]
                == lev(self.seq_a().take(i), self.seq_b().take(j))
    }

    /// Copies both sequences and sets up the table's border: cell `(i, 0)`
    /// holds `i` and cell `(0, j)` holds `j`.
    pub fn new(a: &Vec<T>, b: &Vec<T>) -> (r: Levenshtein<T>)
        requires
            plain_elements::<T>(),
            fits(a@.len(), b@.len()),
        ensures
            r.wf(),
            r.seq_a() == a@,
            r.seq_b() == b@,
            r.table().len() == a@.len() + 1,
            forall|i: int| 0 <= i <= a@.len() ==> (#[trigger] r.table()[i]).len() == b@.len() + 1,
            forall|i: int, j: int|
                0 <= i <= a@.len() && 0 <= j <= b@.len() ==> #[trigger] r.table()[i][j] == if i == 0 {
                    j
                } else if j == 0 {
                    i
                } else {
                    0
                },
    {
        let vec_a = a.clone();
        let vec_b = b.clone();
        assert(vec_a@ =~= a@);
        assert(vec_b@ =~= b@);

        let dim_a = vec_a.len() + 1;
        let dim_b = vec_b.len() + 1;

        assert(dim_a <= dim_a * dim_b && dim_b <= dim_a * dim_b) by (nonlinear_arith)
            requires
                dim_a >= 1,
                dim_b >= 1,
        ;
        let mut matrix = zeros(dim_a, dim_b);
        let mut i: usize = 0;
        while i < dim_a
            invariant
                0 <= i <= dim_a,
                0 < dim_b,
                dim_a <= u32::MAX,
                cells(matrix).len() == dim_a,
                forall|p: int| 0 <= p < dim_a ==> (#[trigger] cells(matrix)[p]).len() == dim_b,
                forall|p: int, q: int|
                    0 <= p < dim_a && 0 <= q < dim_b ==> #[trigger] cells(matrix)[p][q] == if p < i && q
                        == 0 {
                        p
                    } else {
                        0
                    },
            decreases dim_a - i,
        {
            set_cell(&mut matrix, i, 0, i as u32);
            i += 1;
        }
        let mut j: usize = 0;
        while j < dim_b
            invariant
                0 <= j <= dim_b,
                0 < dim_a,
                dim_b <= u32::MAX,
                cells(matrix).len() == dim_a,
                forall|p: int| 0 <= p < dim_a ==> (#[trigger] cells(matrix)[p]).len() == dim_b,
                forall|p: int, q: int|
                    0 <= p < dim_a && 0 <= q < dim_b ==> #[trigger] cells(matrix)[p][q] == if p == 0 && q
                        < j {
                        q
                    } else if q == 0 {
                        p
                    } else {
                        0
                    },
            decreases dim_b - j,
        {
            set_cell(&mut matrix, 0, j, j as u32);
            j += 1;
        }

        Levenshtein { matrix, a: vec_a, b: vec_b, dim_a, dim_b }
    }

    /// Fills every interior cell, row by row, and returns the last one: the
    /// distance between the two sequences. Calling it again gives the same
    /// result.
    pub fn distance(&mut self) -> (r: u32)
        requires
            plain_elements::<T>(),
            old(self).wf(),
        ensures
            final(self).wf(),
            final(self).seq_a() == old(self).seq_a(),
            final(self).seq_b() == old(self).seq_b(),
            final(self).filled(),
            r == lev(old(self).seq_a(), old(self).seq_b()),
    {
        let dim_a = self.dim_a;
        let dim_b = self.dim_b;
        let ghost sa = self.a@;
        let ghost sb = self.b@;
        assert(sa.take(0) =~= Seq::<T>::empty());
        assert(sb.take(0) =~= Seq::<T>::empty());

        let mut i: usize = 1;
        while i < dim_a
            invariant
                1 <= i <= dim_a,
                plain_elements::<T>(),
                dim_a == self.dim_a,
                dim_b == self.dim_b,
                self.wf(),
                self.a@ == sa,
                self.b@ == sb,
                forall|p: int, q: int|
                    0 <= p < i && 0 <= q < dim_b ==> #[trigger] self.table()[p][q] == lev(
                        sa.take(p),
                        sb.take(q),
                    ),
            decreases dim_a - i,
        {
            let mut j: usize = 1;
            while j < dim_b
                invariant
                    1 <= i < dim_a,
                    1 <= j <= dim_b,
                    plain_elements::<T>(),
                    dim_a == self.dim_a,
                    dim_b == self.dim_b,
                    self.wf(),
                    self.a@ == sa,
                    self.b@ == sb,
                    forall|p: int, q: int|
                        0 <= p < i && 0 <= q < dim_b ==> #[trigger] self.table()[p][q] == lev(
                            sa.take(p),
                            sb.take(q),
                        ),
                    forall|q: int|
                        0 <= q < j ==> #[trigger] self.table()[i as int][q] == lev(
                            sa.take(i as int),
                            sb.take(q),
                        ),
                decreases dim_b - j,
            {
                let v = self.value_of(i, j);
                set_cell(&mut self.matrix, i, j, v);
                j += 1;
            }
            i += 1;
        }
        assert(sa.take(sa.len() as int) =~= sa);
        assert(sb.take(sb.len() as int) =~= sb);
        cell(&self.matrix, dim_a - 1, dim_b - 1)
    }

    /// The value of the interior cell `(i, j)`, from the three cells above,
    /// to the left and diagonally before it.
    fn value_of(&self, i: usize, j: usize) -> (r: u32)
        requires
            plain_elements::<T>(),
            self.wf(),
            1 <= i < self.dim_a,
            1 <= j < self.dim_b,
            self.table()[i - 1][j as int] == lev(self.a@.take(i - 1), self.b@.take(j as int)),
            self.table()[i as int][j - 1] == lev(self.a@.take(i as int), self.b@.take(j - 1)),
            self.table()[i - 1][j - 1] == lev(self.a@.take(i - 1), self.b@.take(j - 1)),
        ensures
            r == lev(self.a@.take(i as int), self.b@.take(j as int)),
    {
        let ghost pa = self.a@.take(i as int);
        let ghost pb = self.b@.take(j as int);
        proof {
            assert(pa.drop_last() =~= self.a@.take(i - 1));
            assert(pb.drop_last() =~= self.b@.take(j - 1));
            lemma_distance_bounds(pa.drop_last(), pb);
            lemma_distance_bounds(pa, pb.drop_last());
            lemma_distance_bounds(pa.drop_last(), pb.drop_last());
            reveal(obeys_concrete_eq);
        }
        let cost: u32 = if self.a[i - 1] == self.b[j - 1] {
            0
        } else {
            1
        };
        assert(cost == subst_cost(pa.last(), pb.last()));
        let m = &self.matrix;
        min3(cell(m, i - 1, j) + 1, cell(m, i, j - 1) + 1, cell(m, i - 1, j - 1) + cost)
    }
}

/// The code points of a sequence of characters.
pub open spec fn code_points(s: Seq<char>) -> Seq<u32> {
    s.map_values(|c: char| c as u32)
}

/// Two characters have the same code point only when they are equal.
proof fn lemma_code_point_injective(x: char, y: char)
    ensures
        (x as u32 == y as u32) <==> x == y,
{
}

/// Replacing each character by its code point keeps the distance.
pub proof fn lemma_code_points_keep_distance(a: Seq<char>, b: Seq<char>)
    ensures
        lev(code_points(a), code_points(b)) == lev(a, b),
    decreases a.len() + b.len(),
{
    if a.len() > 0 && b.len() > 0 {
        lemma_code_points_keep_distance(a.drop_last(), b);
        lemma_code_points_keep_distance(a, b.drop_last());
        lemma_code_points_keep_distance(a.drop_last(), b.drop_last());
        assert(code_points(a).drop_last() =~= code_points(a.drop_last()));
        assert(code_points(b).drop_last() =~= code_points(b.drop_last()));
        lemma_code_point_injective(a.last(), b.last());
    }
}

/// `u32` values compare by equality and clone to themselves.
proof fn lemma_u32_plain()
    ensures
        plain_elements::<u32>(),
{
    broadcast use vstd::laws_eq::group_laws_eq;

    assert(obeys_concrete_eq::<u32>());
}

/// The code points of the characters of `s`, in order.
fn code_points_of(s: &String) -> (r: Vec<u32>)
    ensures
        r@ == code_points(s@),
{
    let ghost text = s@;
    let st: &str = s.as_str();
    let mut it = st.chars();
    proof {
        axiom_spec_iter(st);
    }
    let mut r: Vec<u32> = Vec::new();
    let ghost n: int = 0;
    loop
        invariant
            0 <= n <= text.len(),
            text == s@,
            IteratorSpec::remaining(&it) == text.skip(n),
            r@ == code_points(text.take(n)),
        decreases text.len() - n,
    {
        match it.next() {
            Some(c) => {
                r.push(c as u32);
                proof {
                    assert(text.take(n + 1) =~= text.take(n).push(c));
                    n = n + 1;
                    assert(text.skip(n) =~= text.skip(n - 1).drop_first());
                    assert(code_points(text.take(n)) =~= code_points(text.take(n - 1)).push(c as u32));
                }
            },
            None => {
                assert(text.take(n) =~= text);
                return r;
            },
        }
    }
}

/// The edit distance between the characters of `a` and those of `b`.
pub fn distance(a: &String, b: &String) -> (r: u32)
    requires
        fits(a@.len(), b@.len()),
    ensures
        r == lev(a@, b@),
{
    let vec_a = code_points_of(a);
    let vec_b = code_points_of(b);
    proof {
        lemma_u32_plain();
        lemma_code_points_keep_distance(a@, b@);
    }
    let mut l = Levenshtein::new(&vec_a, &vec_b);
    l.distance()
}

/// The smallest of three numbers.
fn min3(a: u32, b: u32, c: u32) -> (r: u32)
    ensures
        r == crate::metric::min3(a as nat, b as nat, c as nat),
{
    let s = if a <= b {
        a
    } else {
        b
    };
    if s <= c {
        s
    } else {
        c
    }
}

} // verus!
