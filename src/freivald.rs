//! Challenge stores of geometric vectors, and Freivalds' check of `A·B = C` against them.
use crate::field::{fe_pow, fe_random, lemma_small_mod, modulus, Fe};
use crate::lemmas::lemma_completeness;
use crate::matrix::{is_square, mat_mul, mat_vec, values, Matrix};
use vstd::arithmetic::power::pow;
use vstd::prelude::*;

verus! {

/// The challenge vector of seed `r` and length `n`: `(r^0, r^1, ..., r^(n-1))` in the field.
pub open spec fn geometric(r: int, n: nat) -> Seq<int> {
    Seq::new(n, |i: int| pow(r, i as nat) % modulus())
}

/// `x` is the geometric vector of length `n` of some field element.
pub open spec fn is_geometric(x: Seq<int>, n: nat) -> bool {
    exists|r: int| 0 <= r < modulus() && x == #[trigger] geometric(r, n)
}

/// `xs` is a store of challenges of dimension `n`: at least one vector, each geometric.
pub open spec fn is_challenge_store(xs: Seq<Seq<int>>, n: nat) -> bool {
    &&& n >= 1
    &&& xs.len() >= 1
    &&& forall|j: int| 0 <= j < xs.len() ==> is_geometric(#[trigger] xs[j], n)
}

/// The length of the vectors of a store (that of its first vector).
pub open spec fn dimension_of(xs: Seq<Seq<int>>) -> nat {
    if xs.len() == 0 {
        0
    } else {
        xs[0].len()
    }
}

/// One trial of the check: `A·(B·x) = C·x` in the field.
pub open spec fn trial_passes(a: Seq<Seq<int>>, b: Seq<Seq<int>>, c: Seq<Seq<int>>, x: Seq<int>) -> bool {
    mat_vec(a, mat_vec(b, x)) == mat_vec(c, x)
}

/// Every trial of the store `xs` passes.
pub open spec fn accepts(a: Seq<Seq<int>>, b: Seq<Seq<int>>, c: Seq<Seq<int>>, xs: Seq<Seq<int>>) -> bool {
    forall|j: int| 0 <= j < xs.len() ==> #[trigger] trial_passes(a, b, c, xs[j])
}

/// `j` is the first trial of `xs` that fails.
pub open spec fn is_first_mismatch(
    a: Seq<Seq<int>>,
    b: Seq<Seq<int>>,
    c: Seq<Seq<int>>,
    xs: Seq<Seq<int>>,
    j: int,
) -> bool {
    &&& 0 <= j < xs.len()
    &&& !trial_passes(a, b, c, xs[j])
    &&& forall|i: int| 0 <= i < j ==> #[trigger] trial_passes(a, b, c, xs[i])
}

/// Why a store cannot be built.
#[derive(Clone, Copy, Debug, PartialEq, Eq, Structural)]
pub enum FreivaldError {
    /// The dimension or the number of trials is zero.
    InvalidDimension,
}

/// A store of challenge vectors for Freivalds' check of `n × n` products.
///
/// Every vector is `(1, r, r^2, ..., r^(n-1))` for its own seed `r`. A store may answer many
/// queries, but a prover that has seen its vectors before committing to `C` can defeat it:
/// against such a prover, build a fresh store for each query.
pub struct Freivald {
    n: usize,
    x: Vec<Vec<Fe>>,
}

impl View for Freivald {
    type V = Seq<Seq<int>>;

    closed spec fn view(&self) -> Seq<Seq<int>> {
        self.x@.map_values(|v: Vec<Fe>| values(v@))
    }
}

/// The geometric vector of the seed `r`, of length `n`.
fn geometric_vec(r: &Fe, n: usize) -> (v: Vec<Fe>)
    ensures
        v@.len() == n,
        values(v@) == geometric(r.value(), n as nat),
{
    let mut v: Vec<Fe> = Vec::new();
    for i in 0..n
        invariant
            v@.len() == i,
            forall|t: int| 0 <= t < i ==> (#[trigger] v@[t]).value() == pow(r.value(), t as nat) % modulus(),
    {
        v.push(fe_pow(r, i as u64));
    }
    assert(values(v@) =~= geometric(r.value(), n as nat));
    v
}

impl Freivald {
    #[verifier::type_invariant]
    spec fn well_formed(self) -> bool {
        &&& forall|j: int| 0 <= j < self.x@.len() ==> #[trigger] self.x@[j]@.len() == self.n
        &&& is_challenge_store(self@, self.n as nat)
    }

    proof fn lemma_view_shape(self)
        requires
            self.well_formed(),
        ensures
            self@.len() == self.x@.len(),
            dimension_of(self@) == self.n,
            forall|j: int|
                0 <= j < self.x@.len() ==> (#[trigger] self@[j]) == values(self.x@[j]@)
                    && self@[j].len() == self.n,
    {
        assert forall|j: int| 0 <= j < self.x@.len() implies (#[trigger] self@[j]) == values(
            self.x@[j]@,
        ) && self@[j].len() == self.n by {
            assert(self.x@[j]@.len() == self.n);
        }
        assert(self@[0].len() == self.n);
    }

    /// The store whose vectors are the geometric vectors of length `n` of the given seeds, in
    /// their order; `InvalidDimension` when `n` is zero or no seed is given.
    pub fn from_seeds(n: usize, seeds: &Vec<Fe>) -> (r: Result<Freivald, FreivaldError>)
        ensures
            r is Err <==> (n == 0 || seeds@.len() == 0),
            r is Err ==> r == Err::<Freivald, FreivaldError>(FreivaldError::InvalidDimension),
            r matches Ok(s) ==> s@ == Seq::new(
                seeds@.len(),
                |j: int| geometric(seeds@[j].value(), n as nat),
            ),
    {
        if n == 0 || seeds.len() == 0 {
            return Err(FreivaldError::InvalidDimension);
        }
        let mut x: Vec<Vec<Fe>> = Vec::new();
        for j in 0..seeds.len()
            invariant
                n >= 1,
                x@.len() == j,
                forall|t: int| 0 <= t < j ==> (#[trigger] x@[t])@.len() == n,
                forall|t: int|
                    0 <= t < j ==> values((#[trigger] x@[t])@) == geometric(seeds@[t].value(), n as nat),
                forall|t: int|
                    0 <= t < j ==> 0 <= (#[trigger] seeds@[t]).value() < modulus(),
        {
            let seed = &seeds[j];
            proof {
                use_type_invariant(seed);
                seed.lemma_canonical();
            }
            x.push(geometric_vec(seed, n));
        }
        let ghost xs = x@.map_values(|v: Vec<Fe>| values(v@));
        assert(xs =~= Seq::new(seeds@.len(), |j: int| geometric(seeds@[j].value(), n as nat)));
        assert forall|j: int| 0 <= j < xs.len() implies is_geometric(#[trigger] xs[j], n as nat) by {
            assert(0 <= seeds@[j].value() < modulus());
            assert(xs[j] == geometric(seeds@[j].value(), n as nat));
        }
        assert(is_challenge_store(xs, n as nat));
        Ok(Freivald { n, x })
    }
}


impl Freivald {
    /// A store of `k` challenge vectors of length `n`, each from its own uniformly drawn seed;
    /// `InvalidDimension` when `n` or `k` is zero.
    pub fn new(n: usize, k: usize) -> (r: Result<Freivald, FreivaldError>)
        ensures
            r is Err <==> (n == 0 || k == 0),
            r is Err ==> r == Err::<Freivald, FreivaldError>(FreivaldError::InvalidDimension),
            r matches Ok(s) ==> s@.len() == k && is_challenge_store(s@, n as nat)
                && dimension_of(s@) == n,
    {
        if n == 0 || k == 0 {
            return Err(FreivaldError::InvalidDimension);
        }
        let mut seeds: Vec<Fe> = Vec::new();
        for j in 0..k
            invariant
                seeds@.len() == j,
        {
            seeds.push(fe_random());
        }
        match Freivald::from_seeds(n, &seeds) {
            Ok(s) => {
                proof {
                    use_type_invariant(&s);
                    s.lemma_view_shape();
                }
                Ok(s)
            },
            Err(e) => Err(e),
        }
    }

    /// Checks `A·(B·x) = C·x` for each vector `x` of the store in turn, and returns the index
    /// of the first vector on which it fails, or `None` when it holds on all of them. No vector
    /// after that index is used.
    pub fn first_mismatch(&self, a: &Matrix, b: &Matrix, c: &Matrix) -> (r: Option<usize>)
        requires
            is_square(a@, dimension_of(self@)),
            is_square(b@, dimension_of(self@)),
            is_square(c@, dimension_of(self@)),
        ensures
            r is None <==> accepts(a@, b@, c@, self@),
            r matches Some(j) ==> is_first_mismatch(a@, b@, c@, self@, j as int),
    {
        proof {
            use_type_invariant(self);
            self.lemma_view_shape();
        }
        for j in 0..self.x.len()
            invariant
                self@.len() == self.x@.len(),
                is_square(a@, self.n as nat),
                is_square(b@, self.n as nat),
                is_square(c@, self.n as nat),
                forall|t: int|
                    0 <= t < self.x@.len() ==> (#[trigger] self@[t]) == values(self.x@[t]@),
                forall|t: int| 0 <= t < self.x@.len() ==> (#[trigger] self.x@[t])@.len() == self.n,
                forall|t: int| 0 <= t < j ==> #[trigger] trial_passes(a@, b@, c@, self@[t]),
        {
            if !trial(a, b, c, &self.x[j]) {
                assert(!trial_passes(a@, b@, c@, self@[j as int]));
                return Some(j);
            }
        }
        None
    }

    /// Freivalds' check: whether `A·(B·x) = C·x` in the field for every vector `x` of the
    /// store, trying them in order and stopping at the first that fails. A product `C = A·B`
    /// is always accepted.
    pub fn verify(&self, a: &Matrix, b: &Matrix, c: &Matrix) -> (r: bool)
        requires
            is_square(a@, dimension_of(self@)),
            is_square(b@, dimension_of(self@)),
            is_square(c@, dimension_of(self@)),
        ensures
            r == accepts(a@, b@, c@, self@),
    {
        self.first_mismatch(a, b, c).is_none()
    }

    /// Freivalds' check with one fresh challenge vector of dimension `n`, the size of `c`.
    /// The result is that of one trial on some geometric vector; a true product is always
    /// accepted, and so are empty matrices.
    pub fn verify_once(a: &Matrix, b: &Matrix, c: &Matrix) -> (r: bool)
        requires
            is_square(a@, c@.len()),
            is_square(b@, c@.len()),
            is_square(c@, c@.len()),
        ensures
            c@ == mat_mul(a@, b@) ==> r,
            c@.len() == 0 ==> r,
            c@.len() > 0 ==> exists|x: Seq<int>|
                is_geometric(x, c@.len()) && r == #[trigger] trial_passes(a@, b@, c@, x),
    {
        let n = c.nrows();
        if n == 0 {
            return true;
        }
        match Freivald::new(n, 1) {
            Ok(store) => {
                let r = store.verify(a, b, c);
                proof {
                    lemma_completeness(a@, b@, store@, n as nat);
                    assert(is_geometric(store@[0], n as nat));
                    assert(r == trial_passes(a@, b@, c@, store@[0]));
                }
                r
            },
            Err(_) => true,
        }
    }

    /// The length `n` of the challenge vectors, which is the size of the matrices checked.
    pub fn dimension(&self) -> (r: usize)
        ensures
            r == dimension_of(self@),
            is_challenge_store(self@, r as nat),
    {
        proof {
            use_type_invariant(self);
            self.lemma_view_shape();
        }
        self.n
    }

    /// The number `k` of challenge vectors, that is of trials.
    pub fn trials(&self) -> (r: usize)
        ensures
            r == self@.len(),
    {
        proof {
            use_type_invariant(self);
            self.lemma_view_shape();
        }
        self.x.len()
    }

    /// Challenge vector `j`.
    pub fn challenge(&self, j: usize) -> (r: &Vec<Fe>)
        requires
            j < self@.len(),
        ensures
            values(r@) == self@[j as int],
    {
        proof {
            use_type_invariant(self);
            self.lemma_view_shape();
        }
        &self.x[j]
    }
}

/// One trial: whether `A·(B·x) = C·x` in the field.
fn trial(a: &Matrix, b: &Matrix, c: &Matrix, x: &Vec<Fe>) -> (r: bool)
    requires
        is_square(a@, x@.len()),
        is_square(b@, x@.len()),
        is_square(c@, x@.len()),
    ensures
        r == trial_passes(a@, b@, c@, values(x@)),
{
    proof {
        if x@.len() > 0 {
            assert(a@[0].len() == x@.len());
            assert(b@[0].len() == x@.len());
            assert(c@[0].len() == x@.len());
        }
    }
    let y = b.mul_vec(x);
    let z = a.mul_vec(&y);
    let w = c.mul_vec(x);
    same_values(&z, &w)
}

/// Whether two vectors hold the same elements.
fn same_values(u: &Vec<Fe>, v: &Vec<Fe>) -> (r: bool)
    ensures
        r == (values(u@) == values(v@)),
{
    if u.len() != v.len() {
        assert(values(u@).len() != values(v@).len());
        return false;
    }
    for i in 0..u.len()
        invariant
            u@.len() == v@.len(),
            forall|t: int| 0 <= t < i ==> (#[trigger] u@[t]).value() == v@[t].value(),
    {
        if u[i] != v[i] {
            assert(values(u@)[i as int] != values(v@)[i as int]);
            return false;
        }
    }
    assert(values(u@) =~= values(v@));
    true
}

} // verus!
