//! The circuit-variable field backend: `ark_r1cs_std::fields::fp::FpVar` over
//! the BLS12-381 scalar field.
//!
//! The verifier refuses a declaration of `FpVar` itself (its generic bound is
//! an outside trait), so the variable is held inside [`FCircuit`], a struct
//! opaque to the verifier whose public field unverified callers use to
//! allocate and to enforce equalities.  `var_val` names the field value a
//! variable denotes, and `var_ok` names the variables the gadget operations
//! accept — constants, and the variables of one constraint system with their
//! assignments at hand; the trusted wrappers state, under that precondition,
//! what each gadget operation computes on the denoted values, exactly as the
//! native wrappers do for `Fr`, so the generic permutations instantiated with
//! this backend are proved to compute the same values as the native ones.

use vstd::prelude::*;
use crate::field::{f_p, fadd, fsub, fmul, fpow, in_f, limbs_val, FieldOps, ZkError};
use crate::plain::{fr_eq, fr_val, FPlain};
use ark_bls12_381::Fr;
use ark_r1cs_std::fields::fp::FpVar;
use ark_r1cs_std::fields::FieldVar;
use ark_r1cs_std::R1CSVar;

verus! {

/// A circuit-variable field element: a constant or an allocated variable of
/// the constraint system it was created in.
#[verifier::external_body]
pub struct FCircuit(pub FpVar<Fr>);

/// The field value a circuit variable denotes: for a constant, the constant;
/// for an allocated variable, its assignment.
pub uninterp spec fn var_val(v: FCircuit) -> int;

/// The variable may be fed to the gadget operations: it is a constant, or an
/// allocated variable of the one distinguished constraint system of this run
/// whose assignment is available whenever a gadget operation reads it.
///
/// The gadget operations build linear combinations out of raw variable
/// indices and unwrap witness allocations, so a value equation holds of
/// their results — and the operations cannot panic — only when every operand
/// satisfies this; variables of a second constraint system, and unassigned
/// variables of a proving-mode system, do not.
pub uninterp spec fn var_ok(v: FCircuit) -> bool;

/// Relies on `FpVar::Constant` and `ark_ff::Zero::zero`.
#[verifier::external_body]
fn var_zero() -> (r: FCircuit)
    ensures
        var_val(r) == 0,
        in_f(var_val(r)),
        var_ok(r),
{
    FCircuit(FpVar::zero())
}

/// Relies on `FpVar::Constant` and `ark_ff::One::one`.
#[verifier::external_body]
fn var_one() -> (r: FCircuit)
    ensures
        var_val(r) == 1,
        in_f(var_val(r)),
        var_ok(r),
{
    FCircuit(FpVar::one())
}

/// Relies on `FpVar::Constant` and `From<u128> for Fp256` (no reduction below
/// the 255-bit modulus).
#[verifier::external_body]
fn var_from_u128(x: u128) -> (r: FCircuit)
    ensures
        var_val(r) == x as int,
        in_f(var_val(r)),
        var_ok(r),
{
    FCircuit(FpVar::Constant(Fr::from(x)))
}

/// Relies on `FpVar::Constant` and `From<u64> for Fp256`.
#[verifier::external_body]
fn var_from_u64(x: u64) -> (r: FCircuit)
    ensures
        var_val(r) == x as int,
        in_f(var_val(r)),
        var_ok(r),
{
    FCircuit(FpVar::Constant(Fr::from(x)))
}

/// Relies on `FpVar::Constant` and `From<BigInteger256> for Fp256`, which
/// requires a reduced limb value (it panics otherwise).
#[verifier::external_body]
fn var_from_limbs(e: &[u64; 4]) -> (r: FCircuit)
    requires
        limbs_val(e@) < f_p(),
    ensures
        var_val(r) == limbs_val(e@),
        in_f(var_val(r)),
        var_ok(r),
{
    FCircuit(FpVar::Constant(Fr::from(ark_ff::BigInteger256(*e))))
}

/// Relies on the derived `Clone` for `FpVar`, which copies the constant or
/// the variable reference and so denotes the same value.
#[verifier::external_body]
fn var_dup(a: &FCircuit) -> (r: FCircuit)
    ensures
        var_val(r) == var_val(*a),
        in_f(var_val(r)),
        var_ok(*a) ==> var_ok(r),
{
    FCircuit(a.0.clone())
}

/// Relies on `Add for FpVar`: the sum gadget denotes field addition of the
/// denoted values.  The gadget builds a linear combination out of raw
/// variable indices, which is meaningful only for operands of one constraint
/// system; the `var_ok` preconditions exclude mixed operands.
#[verifier::external_body]
fn var_add(a: &FCircuit, b: &FCircuit) -> (r: FCircuit)
    requires
        var_ok(*a),
        var_ok(*b),
    ensures
        var_val(r) == fadd(var_val(*a), var_val(*b)),
        in_f(var_val(r)),
        var_ok(r),
{
    FCircuit(&a.0 + &b.0)
}

/// Relies on `Sub for FpVar`; as for the sum gadget, the `var_ok`
/// preconditions exclude operands of two different constraint systems.
#[verifier::external_body]
fn var_sub(a: &FCircuit, b: &FCircuit) -> (r: FCircuit)
    requires
        var_ok(*a),
        var_ok(*b),
    ensures
        var_val(r) == fsub(var_val(*a), var_val(*b)),
        in_f(var_val(r)),
        var_ok(r),
{
    FCircuit(&a.0 - &b.0)
}

/// Relies on `Mul for FpVar`: the product gadget allocates the product of the
/// denoted values and enforces the multiplication constraint.  The allocation
/// is unwrapped inside the gadget and would panic on an unassigned variable
/// of a proving-mode system; the `var_ok` preconditions exclude that.
#[verifier::external_body]
fn var_mul(a: &FCircuit, b: &FCircuit) -> (r: FCircuit)
    requires
        var_ok(*a),
        var_ok(*b),
    ensures
        var_val(r) == fmul(var_val(*a), var_val(*b)),
        in_f(var_val(r)),
        var_ok(r),
{
    FCircuit(&a.0 * &b.0)
}

/// Relies on `ark_r1cs_std::FieldVar::square` for `FpVar`, whose only inner
/// operation (`AllocatedFp::square`) always returns `Ok` in this version; it
/// multiplies through the product gadget, so the `var_ok` precondition
/// excludes the gadget's panic on an unassigned proving-mode variable.
#[verifier::external_body]
fn var_square(a: &FCircuit) -> (r: FCircuit)
    requires
        var_ok(*a),
    ensures
        var_val(r) == fmul(var_val(*a), var_val(*a)),
        in_f(var_val(r)),
        var_ok(r),
{
    FCircuit(a.0.square().unwrap())
}

/// Relies on `ark_r1cs_std::FieldVar::pow_by_constant`: square-and-multiply
/// over the bits of the little-endian limb exponent, through the product
/// gadget, so the `var_ok` precondition excludes the gadget's panic on an
/// unassigned proving-mode variable.
#[verifier::external_body]
fn var_pow(a: &FCircuit, e: &[u64; 4]) -> (r: Result<FCircuit, ZkError>)
    requires
        var_ok(*a),
    ensures
        r matches Ok(v) ==> var_val(v) == fpow(var_val(*a), limbs_val(e@)) && in_f(var_val(v))
            && var_ok(v),
        r matches Err(z) ==> z == ZkError::Synthesis,
{
    match a.0.pow_by_constant(e) {
        Ok(v) => Ok(FCircuit(v)),
        Err(_) => Err(ZkError::Synthesis),
    }
}

/// Relies on `ark_r1cs_std::R1CSVar::value` for `FpVar`: yields the denoted
/// value when an assignment exists, and an error during setup.
#[verifier::external_body]
fn var_value(a: &FCircuit) -> (r: Result<Fr, ZkError>)
    ensures
        r matches Ok(x) ==> fr_val(x) == var_val(*a) && in_f(fr_val(x)),
        r matches Err(z) ==> z == ZkError::Synthesis,
{
    match a.0.value() {
        Ok(x) => Ok(x),
        Err(_) => Err(ZkError::Synthesis),
    }
}

impl FCircuit {
    /// The denoted native value, when an assignment exists.
    pub fn native(&self) -> (r: Result<FPlain, ZkError>)
        ensures
            r matches Ok(x) ==> x.fval() == self.fval(),
            r matches Err(z) ==> z == ZkError::Synthesis,
    {
        match var_value(self) {
            Ok(x) => Ok(FPlain::new(x)),
            Err(e) => Err(e),
        }
    }
}

impl FieldOps for FCircuit {
    open spec fn fval(&self) -> int {
        var_val(*self)
    }

    open spec fn infallible() -> bool {
        false
    }

    open spec fn ok(&self) -> bool {
        var_ok(*self)
    }

    fn dup(&self) -> (r: Self) {
        var_dup(self)
    }

    fn zero() -> (r: Self) {
        var_zero()
    }

    fn one() -> (r: Self) {
        var_one()
    }

    fn from_u128(x: u128) -> (r: Self) {
        var_from_u128(x)
    }

    fn from_u64(x: u64) -> (r: Self) {
        var_from_u64(x)
    }

    fn from_limbs(e: &[u64; 4]) -> (r: Self) {
        var_from_limbs(e)
    }

    fn add(&self, o: &Self) -> (r: Self) {
        var_add(self, o)
    }

    fn sub(&self, o: &Self) -> (r: Self) {
        var_sub(self, o)
    }

    fn mul(&self, o: &Self) -> (r: Self) {
        var_mul(self, o)
    }

    fn square(&self) -> (r: Self) {
        var_square(self)
    }

    fn pow(&self, e: &[u64; 4]) -> (r: Result<Self, ZkError>) {
        var_pow(self, e)
    }

    fn eq_val(&self, o: &Self) -> (r: Result<bool, ZkError>) {
        let a = match var_value(self) {
            Ok(x) => x,
            Err(e) => {
                return Err(e);
            },
        };
        let b = match var_value(o) {
            Ok(x) => x,
            Err(e) => {
                return Err(e);
            },
        };
        Ok(fr_eq(&a, &b))
    }
}

} // verus!
