//! The native field backend: `ark_bls12_381::Fr`.
//!
//! The element type is opaque to the verifier; the trusted wrappers below
//! state what each arkworks operation computes in terms of `fr_val`, the
//! canonical integer representative of an element.  Everything built on top
//! is verified against those statements.

use vstd::prelude::*;
use crate::field::{f_p, fadd, fsub, fmul, fpow, in_f, limbs_val, FieldOps, ZkError};
use ark_bls12_381::Fr;
use ark_ff::{Field, One, Zero};

verus! {

#[verifier::external_type_specification]
#[verifier::external_body]
#[verifier::reject_recursive_types(P)]
pub struct ExFp256<P>(ark_ff::Fp256<P>);

#[verifier::external_type_specification]
#[verifier::external_body]
pub struct ExFrParameters(ark_bls12_381::FrParameters);

/// The canonical integer representative of a field element, in `[0, f_p())`.
/// `ark_ff::Fp256` documents itself as an element of the prime field of order
/// `P::MODULUS`, which for `ark_bls12_381::FrParameters` is `f_p()`.
pub uninterp spec fn fr_val(x: Fr) -> int;

/// Relies on `ark_ff::Zero::zero` for `Fp256`: the additive identity.
#[verifier::external_body]
fn fr_zero() -> (r: Fr)
    ensures
        fr_val(r) == 0,
        in_f(fr_val(r)),
{
    Fr::zero()
}

/// Relies on `ark_ff::One::one` for `Fp256`: the multiplicative identity.
#[verifier::external_body]
fn fr_one() -> (r: Fr)
    ensures
        fr_val(r) == 1,
        in_f(fr_val(r)),
{
    Fr::one()
}

/// Relies on `From<u128> for Fp256`: the embedding of a 128-bit integer,
/// which is below the 255-bit modulus, so its value is unchanged.
#[verifier::external_body]
fn fr_from_u128(x: u128) -> (r: Fr)
    ensures
        fr_val(r) == x as int,
        in_f(fr_val(r)),
{
    Fr::from(x)
}

/// Relies on `From<u64> for Fp256`.
#[verifier::external_body]
fn fr_from_u64(x: u64) -> (r: Fr)
    ensures
        fr_val(r) == x as int,
        in_f(fr_val(r)),
{
    Fr::from(x)
}

/// Relies on `From<BigInteger256> for Fp256`, which requires the little-endian
/// limb value to be below the modulus (it panics otherwise).
#[verifier::external_body]
fn fr_from_limbs(e: &[u64; 4]) -> (r: Fr)
    requires
        limbs_val(e@) < f_p(),
    ensures
        fr_val(r) == limbs_val(e@),
        in_f(fr_val(r)),
{
    Fr::from(ark_ff::BigInteger256(*e))
}

/// Relies on `Add for Fp256`: field addition.
#[verifier::external_body]
fn fr_add(a: &Fr, b: &Fr) -> (r: Fr)
    ensures
        fr_val(r) == fadd(fr_val(*a), fr_val(*b)),
        in_f(fr_val(r)),
{
    *a + *b
}

/// Relies on `Sub for Fp256`: field subtraction.
#[verifier::external_body]
fn fr_sub(a: &Fr, b: &Fr) -> (r: Fr)
    ensures
        fr_val(r) == fsub(fr_val(*a), fr_val(*b)),
        in_f(fr_val(r)),
{
    *a - *b
}

/// Relies on `Mul for Fp256`: field multiplication.
#[verifier::external_body]
fn fr_mul(a: &Fr, b: &Fr) -> (r: Fr)
    ensures
        fr_val(r) == fmul(fr_val(*a), fr_val(*b)),
        in_f(fr_val(r)),
{
    *a * *b
}

/// Relies on `ark_ff::Field::square` for `Fp256`.
#[verifier::external_body]
fn fr_square(a: &Fr) -> (r: Fr)
    ensures
        fr_val(r) == fmul(fr_val(*a), fr_val(*a)),
        in_f(fr_val(r)),
{
    a.square()
}

/// Relies on `ark_ff::Field::pow`: square-and-multiply exponentiation by the
/// integer the little-endian limbs denote.
#[verifier::external_body]
fn fr_pow(a: &Fr, e: &[u64; 4]) -> (r: Fr)
    ensures
        fr_val(r) == fpow(fr_val(*a), limbs_val(e@)),
        in_f(fr_val(r)),
{
    a.pow(e)
}

/// Relies on the derived `PartialEq` for `Fp256`: the internal representation
/// is canonical, so representation equality is field-element equality.
#[verifier::external_body]
pub(crate) fn fr_eq(a: &Fr, b: &Fr) -> (r: bool)
    ensures
        r <==> fr_val(*a) == fr_val(*b),
{
    a == b
}

/// A native field element.
pub struct FPlain(pub Fr);

impl FPlain {
    /// Wrap a raw backend element.
    pub fn new(x: Fr) -> (r: FPlain)
        ensures
            r.fval() == fr_val(x),
    {
        FPlain(x)
    }

    /// The raw backend element.
    pub fn raw(&self) -> (r: Fr)
        ensures
            fr_val(r) == self.fval(),
    {
        fr_dup(&self.0)
    }
}

/// Relies on `Fp256` being `Copy`.  Every `Fp256` value carries a reduced
/// representation, so the duplicate's representative is in range.
#[verifier::external_body]
fn fr_dup(a: &Fr) -> (r: Fr)
    ensures
        fr_val(r) == fr_val(*a),
        in_f(fr_val(r)),
{
    *a
}

impl FieldOps for FPlain {
    open spec fn fval(&self) -> int {
        fr_val(self.0)
    }

    open spec fn infallible() -> bool {
        true
    }

    open spec fn ok(&self) -> bool {
        true
    }

    fn dup(&self) -> (r: Self) {
        FPlain(fr_dup(&self.0))
    }

    fn zero() -> (r: Self) {
        FPlain(fr_zero())
    }

    fn one() -> (r: Self) {
        FPlain(fr_one())
    }

    fn from_u128(x: u128) -> (r: Self) {
        FPlain(fr_from_u128(x))
    }

    fn from_u64(x: u64) -> (r: Self) {
        FPlain(fr_from_u64(x))
    }

    fn from_limbs(e: &[u64; 4]) -> (r: Self) {
        FPlain(fr_from_limbs(e))
    }

    fn add(&self, o: &Self) -> (r: Self) {
        FPlain(fr_add(&self.0, &o.0))
    }

    fn sub(&self, o: &Self) -> (r: Self) {
        FPlain(fr_sub(&self.0, &o.0))
    }

    fn mul(&self, o: &Self) -> (r: Self) {
        FPlain(fr_mul(&self.0, &o.0))
    }

    fn square(&self) -> (r: Self) {
        FPlain(fr_square(&self.0))
    }

    fn pow(&self, e: &[u64; 4]) -> (r: Result<Self, ZkError>) {
        Ok(FPlain(fr_pow(&self.0, e)))
    }

    fn eq_val(&self, o: &Self) -> (r: Result<bool, ZkError>) {
        Ok(fr_eq(&self.0, &o.0))
    }
}

} // verus!
