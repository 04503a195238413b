//! Elements of the base field of BLS12-381, held as canonical little-endian limbs.
use ark_bls12_381::Fq;
use ark_ff::biginteger::BigInteger384;
use ark_ff::{Field, PrimeField, UniformRand};
use vstd::arithmetic::power::pow;
use vstd::prelude::*;

verus! {

/// The radix of one limb.
pub open spec fn limb_base() -> int {
    0x1_0000_0000_0000_0000
}

/// The integer that six little-endian 64-bit limbs spell out.
pub open spec fn limbs_value(l: [u64; 6]) -> int {
    let b = limb_base();
    l[0] as int + b * (l[1] as int + b * (l[2] as int + b * (l[3] as int + b * (l[4] as int + b
        * l[5] as int))))
}

/// The order of the field: the BLS12-381 base field prime, limb by limb.
pub open spec fn modulus() -> int {
    let b = limb_base();
    0xb9fe_ffff_ffff_aaab + b * (0x1eab_fffe_b153_ffff + b * (0x6730_d2a0_f6b0_f624 + b * (
    0x6477_4b84_f385_12bf + b * (0x4b1b_a7b6_434b_acd7 + b * 0x1a01_11ea_397f_e69a))))
}

/// The limbs of the modulus, least significant first.
const MODULUS_0: u64 = 0xb9fe_ffff_ffff_aaab;
const MODULUS_1: u64 = 0x1eab_fffe_b153_ffff;
const MODULUS_2: u64 = 0x6730_d2a0_f6b0_f624;
const MODULUS_3: u64 = 0x6477_4b84_f385_12bf;
const MODULUS_4: u64 = 0x4b1b_a7b6_434b_acd7;
const MODULUS_5: u64 = 0x1a01_11ea_397f_e69a;

/// An integer below the modulus is its own remainder.
pub proof fn lemma_small_mod(x: int)
    requires
        0 <= x < modulus(),
    ensures
        x % modulus() == x,
{
    vstd::arithmetic::div_mod::lemma_small_mod(x as nat, modulus() as nat);
}

/// One step of the positional notation: a low limb below a higher part.
proof fn lemma_limb_step(x: int, xs: int, y: int, ys: int)
    requires
        0 <= x < limb_base(),
        0 <= y < limb_base(),
        0 <= xs,
        0 <= ys,
    ensures
        (x + limb_base() * xs < y + limb_base() * ys) <==> (xs < ys || (xs == ys && x < y)),
        (x + limb_base() * xs == y + limb_base() * ys) <==> (xs == ys && x == y),
{
}

/// An element of the field, stored as its canonical representative below the modulus.
#[derive(Clone, Copy, Debug)]
pub struct Fe {
    limbs: [u64; 6],
}

impl Fe {
    #[verifier::type_invariant]
    pub(crate) closed spec fn canonical(self) -> bool {
        limbs_value(self.limbs) < modulus()
    }

    /// The value of an element lies in `0 .. modulus()`.
    pub(crate) proof fn lemma_canonical(self)
        requires
            self.canonical(),
        ensures
            0 <= self.value() < modulus(),
    {
    }

    /// The element as an integer in `0 .. modulus()`.
    pub closed spec fn value(self) -> int {
        limbs_value(self.limbs)
    }

    /// The element spelled out by six little-endian limbs, if they are below the modulus.
    pub fn from_limbs(l: [u64; 6]) -> (r: Option<Fe>)
        ensures
            r is Some <==> limbs_value(l) < modulus(),
            r matches Some(e) ==> e.value() == limbs_value(l),
    {
        let lt5 = l[5] < MODULUS_5;
        let eq5 = l[5] == MODULUS_5;
        let lt4 = lt5 || (eq5 && l[4] < MODULUS_4);
        let eq4 = eq5 && l[4] == MODULUS_4;
        let lt3 = lt4 || (eq4 && l[3] < MODULUS_3);
        let eq3 = eq4 && l[3] == MODULUS_3;
        let lt2 = lt3 || (eq3 && l[2] < MODULUS_2);
        let eq2 = eq3 && l[2] == MODULUS_2;
        let lt1 = lt2 || (eq2 && l[1] < MODULUS_1);
        let eq1 = eq2 && l[1] == MODULUS_1;
        let lt0 = lt1 || (eq1 && l[0] < MODULUS_0);
        proof {
            let b = limb_base();
            let a4 = l[4] + b * l[5];
            let a3 = l[3] + b * a4;
            let a2 = l[2] + b * a3;
            let a1 = l[1] + b * a2;
            let m4 = MODULUS_4 + b * MODULUS_5;
            let m3 = MODULUS_3 + b * m4;
            let m2 = MODULUS_2 + b * m3;
            let m1 = MODULUS_1 + b * m2;
            lemma_limb_step(l[4] as int, l[5] as int, MODULUS_4 as int, MODULUS_5 as int);
            lemma_limb_step(l[3] as int, a4, MODULUS_3 as int, m4);
            lemma_limb_step(l[2] as int, a3, MODULUS_2 as int, m3);
            lemma_limb_step(l[1] as int, a2, MODULUS_1 as int, m2);
            lemma_limb_step(l[0] as int, a1, MODULUS_0 as int, m1);
        }
        if lt0 {
            Some(Fe { limbs: l })
        } else {
            None
        }
    }

    /// The six little-endian limbs of the element's value.
    pub fn limbs(&self) -> (r: [u64; 6])
        ensures
            limbs_value(r) == self.value(),
    {
        self.limbs
    }

    /// The additive identity.
    pub fn zero() -> (r: Fe)
        ensures
            r.value() == 0,
    {
        Fe { limbs: [0, 0, 0, 0, 0, 0] }
    }

    /// The element whose value is the integer `v`.
    pub fn from_u64(v: u64) -> (r: Fe)
        ensures
            r.value() == v as int,
    {
        Fe { limbs: [v, 0, 0, 0, 0, 0] }
    }
}

impl PartialEq for Fe {
    fn eq(&self, other: &Fe) -> (r: bool) {
        proof {
            let b = limb_base();
            let (l, o) = (self.limbs, other.limbs);
            lemma_limb_step(l[4] as int, l[5] as int, o[4] as int, o[5] as int);
            lemma_limb_step(l[3] as int, l[4] + b * l[5], o[3] as int, o[4] + b * o[5]);
            lemma_limb_step(
                l[2] as int,
                l[3] + b * (l[4] + b * l[5]),
                o[2] as int,
                o[3] + b * (o[4] + b * o[5]),
            );
            lemma_limb_step(
                l[1] as int,
                l[2] + b * (l[3] + b * (l[4] + b * l[5])),
                o[1] as int,
                o[2] + b * (o[3] + b * (o[4] + b * o[5])),
            );
            lemma_limb_step(
                l[0] as int,
                l[1] + b * (l[2] + b * (l[3] + b * (l[4] + b * l[5]))),
                o[0] as int,
                o[1] + b * (o[2] + b * (o[3] + b * (o[4] + b * o[5]))),
            );
        }
        self.limbs[0] == other.limbs[0] && self.limbs[1] == other.limbs[1] && self.limbs[2]
            == other.limbs[2] && self.limbs[3] == other.limbs[3] && self.limbs[4]
            == other.limbs[4] && self.limbs[5] == other.limbs[5]
    }
}

impl vstd::std_specs::cmp::PartialEqSpecImpl for Fe {
    open spec fn obeys_eq_spec() -> bool {
        true
    }

    open spec fn eq_spec(&self, other: &Fe) -> bool {
        self.value() == other.value()
    }
}

/// Relies on `+` of ark_ff's `Fp384` for `Fq`: addition modulo the field's prime. Elements pass in and out through
/// ark_ff's `PrimeField::from_repr` and `into_repr` on the canonical limbs, which `Fe` keeps below
/// the modulus, so `from_repr` always succeeds.
#[verifier::external_body]
pub(crate) fn fe_add(a: &Fe, b: &Fe) -> (r: Fe)
    ensures
        r.value() == (a.value() + b.value()) % modulus(),
{
    let x = Fq::from_repr(BigInteger384(a.limbs)).unwrap();
    let y = Fq::from_repr(BigInteger384(b.limbs)).unwrap();
    Fe { limbs: (x + y).into_repr().0 }
}

/// Relies on `*` of ark_ff's `Fp384` for `Fq`: multiplication modulo the field's prime. Elements pass in and out through
/// ark_ff's `PrimeField::from_repr` and `into_repr` on the canonical limbs, which `Fe` keeps below
/// the modulus, so `from_repr` always succeeds.
#[verifier::external_body]
pub(crate) fn fe_mul(a: &Fe, b: &Fe) -> (r: Fe)
    ensures
        r.value() == (a.value() * b.value()) % modulus(),
{
    let x = Fq::from_repr(BigInteger384(a.limbs)).unwrap();
    let y = Fq::from_repr(BigInteger384(b.limbs)).unwrap();
    Fe { limbs: (x * y).into_repr().0 }
}

/// Relies on ark_ff's `Field::pow` for `Fq`: the base raised to the exponent, modulo the
/// field's prime (the empty product, one, for the exponent zero). Elements pass in and out through
/// ark_ff's `PrimeField::from_repr` and `into_repr` on the canonical limbs, which `Fe` keeps below
/// the modulus, so `from_repr` always succeeds.
#[verifier::external_body]
pub(crate) fn fe_pow(a: &Fe, e: u64) -> (r: Fe)
    ensures
        r.value() == pow(a.value(), e as nat) % modulus(),
{
    let x = Fq::from_repr(BigInteger384(a.limbs)).unwrap();
    Fe { limbs: x.pow([e]).into_repr().0 }
}

/// Relies on ark_ff's `UniformRand` for `Fq`, drawn from rand's `thread_rng`: a uniformly
/// sampled element, of which nothing further is promised; `into_repr` gives its canonical limbs.
#[verifier::external_body]
pub(crate) fn fe_random() -> (r: Fe) {
    let x = Fq::rand(&mut rand::thread_rng());
    Fe { limbs: x.into_repr().0 }
}

} // verus!
