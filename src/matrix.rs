//! Dense matrices over the field, and their product with a column vector.
use crate::field::{fe_add, fe_mul, lemma_small_mod, modulus, Fe};
use vstd::arithmetic::div_mod::lemma_add_mod_noop;
use vstd::prelude::*;

verus! {

/// The values of a sequence of field elements.
pub open spec fn values(v: Seq<Fe>) -> Seq<int> {
    v.map_values(|e: Fe| e.value())
}

/// The sum of `u[j] * x[j]` over the first `n` positions, as an integer.
pub open spec fn dot_upto(u: Seq<int>, x: Seq<int>, n: nat) -> int
    decreases n,
{
    if n == 0 {
        0
    } else {
        dot_upto(u, x, (n - 1) as nat) + u[n - 1] * x[n - 1]
    }
}

/// The inner product of `u` and `x` over the length of `u`, as an integer.
pub open spec fn dot(u: Seq<int>, x: Seq<int>) -> int {
    dot_upto(u, x, u.len())
}

/// The product of the matrix `m` (a sequence of rows) and the column `x`, in the field.
pub open spec fn mat_vec(m: Seq<Seq<int>>, x: Seq<int>) -> Seq<int> {
    Seq::new(m.len(), |i: int| dot(m[i], x) % modulus())
}

/// The number of columns of `m`: the length of its first row.
pub open spec fn num_cols(m: Seq<Seq<int>>) -> nat {
    if m.len() == 0 {
        0
    } else {
        m[0].len()
    }
}

/// Column `k` of `m`.
pub open spec fn column(m: Seq<Seq<int>>, k: int) -> Seq<int> {
    Seq::new(m.len(), |j: int| m[j][k])
}

/// The product of the matrices `a` and `b`, in the field.
pub open spec fn mat_mul(a: Seq<Seq<int>>, b: Seq<Seq<int>>) -> Seq<Seq<int>> {
    Seq::new(
        a.len(),
        |i: int| Seq::new(num_cols(b), |k: int| dot(a[i], column(b, k)) % modulus()),
    )
}

/// `m` has `n` rows, each of length `n`.
pub open spec fn is_square(m: Seq<Seq<int>>, n: nat) -> bool {
    &&& m.len() == n
    &&& forall|i: int| 0 <= i < n ==> #[trigger] m[i].len() == n
}

/// A dense matrix of field elements, stored row by row.
pub struct Matrix {
    nrows: usize,
    ncols: usize,
    rows: Vec<Vec<Fe>>,
}

impl View for Matrix {
    type V = Seq<Seq<int>>;

    closed spec fn view(&self) -> Seq<Seq<int>> {
        self.rows@.map_values(|r: Vec<Fe>| values(r@))
    }
}

impl Matrix {
    #[verifier::type_invariant]
    spec fn shaped(self) -> bool {
        &&& self.rows@.len() == self.nrows
        &&& self.nrows == 0 ==> self.ncols == 0
        &&& forall|i: int| 0 <= i < self.nrows ==> #[trigger] self.rows@[i]@.len() == self.ncols
    }

    proof fn lemma_view_shape(self)
        requires
            self.shaped(),
        ensures
            self@.len() == self.nrows,
            num_cols(self@) == self.ncols,
            forall|i: int|
                0 <= i < self.nrows ==> (#[trigger] self@[i]) == values(self.rows@[i]@)
                    && self@[i].len() == self.ncols,
    {
        assert forall|i: int| 0 <= i < self.nrows implies (#[trigger] self@[i]) == values(
            self.rows@[i]@,
        ) && self@[i].len() == self.ncols by {
            assert(self.rows@[i]@.len() == self.ncols);
        }
        if self.nrows > 0 {
            assert(self@[0].len() == self.ncols);
        }
    }

    /// The matrix with the given rows; `None` when the rows differ in length.
    pub fn from_rows(rows: Vec<Vec<Fe>>) -> (r: Option<Matrix>)
        ensures
            r is Some <==> forall|i: int|
                0 <= i < rows@.len() ==> #[trigger] rows@[i]@.len() == rows@[0]@.len(),
            r matches Some(m) ==> m@ == rows@.map_values(|v: Vec<Fe>| values(v@)),
    {
        let nrows = rows.len();
        let ncols: usize = if nrows == 0 {
            0
        } else {
            rows[0].len()
        };
        let mut i: usize = 0;
        while i < nrows
            invariant
                i <= nrows == rows@.len(),
                nrows > 0 ==> ncols == rows@[0]@.len(),
                forall|j: int| 0 <= j < i ==> #[trigger] rows@[j]@.len() == ncols,
            decreases nrows - i,
        {
            if rows[i].len() != ncols {
                return None;
            }
            i = i + 1;
        }
        Some(Matrix { nrows, ncols, rows })
    }

    /// The number of rows.
    pub fn nrows(&self) -> (r: usize)
        ensures
            r == self@.len(),
    {
        proof {
            use_type_invariant(self);
            self.lemma_view_shape();
        }
        self.nrows
    }

    /// The number of columns; every row has this length.
    pub fn ncols(&self) -> (r: usize)
        ensures
            r == num_cols(self@),
            forall|i: int| 0 <= i < self@.len() ==> #[trigger] self@[i].len() == r,
    {
        proof {
            use_type_invariant(self);
            self.lemma_view_shape();
        }
        self.ncols
    }

    /// The product of this matrix and the column `x`, in the field.
    pub fn mul_vec(&self, x: &Vec<Fe>) -> (r: Vec<Fe>)
        requires
            x@.len() == num_cols(self@),
        ensures
            r@.len() == self@.len(),
            values(r@) == mat_vec(self@, values(x@)),
    {
        proof {
            use_type_invariant(self);
            self.lemma_view_shape();
        }
        let mut out: Vec<Fe> = Vec::new();
        for i in 0..self.nrows
            invariant
                self.rows@.len() == self.nrows,
                self@.len() == self.nrows,
                forall|j: int|
                    0 <= j < self.nrows ==> (#[trigger] self@[j]) == values(self.rows@[j]@),
                forall|j: int| 0 <= j < self.nrows ==> #[trigger] self.rows@[j]@.len() == x@.len(),
                out@.len() == i,
                forall|j: int|
                    0 <= j < i ==> (#[trigger] out@[j]).value() == dot(self@[j], values(x@))
                        % modulus(),
        {
            let e = dot_row(&self.rows[i], x);
            out.push(e);
        }
        assert(values(out@) =~= mat_vec(self@, values(x@)));
        out
    }
}

/// The inner product of `row` and `x`, in the field.
fn dot_row(row: &Vec<Fe>, x: &Vec<Fe>) -> (r: Fe)
    requires
        row@.len() == x@.len(),
    ensures
        r.value() == dot(values(row@), values(x@)) % modulus(),
{
    let ghost u = values(row@);
    let ghost v = values(x@);
    let mut acc = Fe::zero();
    proof {
        lemma_small_mod(0);
    }
    for j in 0..row.len()
        invariant
            row@.len() == x@.len(),
            u == values(row@),
            v == values(x@),
            acc.value() == dot_upto(u, v, j as nat) % modulus(),
    {
        let t = fe_mul(&row[j], &x[j]);
        let next = fe_add(&acc, &t);
        proof {
            lemma_add_mod_noop(dot_upto(u, v, j as nat), u[j as int] * v[j as int], modulus());
        }
        acc = next;
    }
    acc
}

/// Whether `a`, `b` and `c` all have `size` rows and `size` columns.
pub fn check_matrix_dimensions(a: &Matrix, b: &Matrix, c: &Matrix, size: usize) -> (r: bool)
    ensures
        r == (is_square(a@, size as nat) && is_square(b@, size as nat) && is_square(c@, size as nat)),
{
    a.nrows() == size && b.nrows() == size && c.nrows() == size && a.ncols() == size && b.ncols()
        == size && c.ncols() == size
}

} // verus!
