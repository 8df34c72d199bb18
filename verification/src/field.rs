//! The abstract field interface.
//!
//! Every algorithm in this crate is written once, generically over
//! [`FieldOps`]: a type whose values stand for elements of the scalar field of
//! BLS12-381 and support the ring operations plus exponentiation by a fixed
//! 256-bit exponent.  The two implementations are a native field element and a
//! constraint-system variable; both view their values as integers in
//! `[0, f_p())`, so one verified algorithm pins down both evaluations.

use vstd::prelude::*;
use vstd::arithmetic::power::pow;

verus! {

/// The errors of this crate.
#[derive(Clone, Copy, Debug, PartialEq, Eq, Structural)]
pub enum ZkError {
    /// A sponge call disagreed with the declared IO pattern, or the pattern
    /// was not exhausted at `finish`.
    PatternMismatch,
    /// The circuit backend failed while synthesizing an operation.
    Synthesis,
    /// Authenticated decryption: the transmitted tag does not match the
    /// recomputed one.
    TagMismatch,
    /// A Ciminion message is longer than the materialized subkey schedule
    /// supports.
    LengthBound,
}

/// The order of the scalar field of BLS12-381.
pub open spec fn f_p() -> int {
    0x73eda753299d7d483339d80809a1d80553bda402fffe5bfeffffffff00000001int
}

/// A reduced field value.
pub open spec fn in_f(x: int) -> bool {
    0 <= x < f_p()
}

/// Field addition.
pub open spec fn fadd(a: int, b: int) -> int {
    (a + b) % f_p()
}

/// Field subtraction.
pub open spec fn fsub(a: int, b: int) -> int {
    (a - b) % f_p()
}

/// Field multiplication.
pub open spec fn fmul(a: int, b: int) -> int {
    (a * b) % f_p()
}

/// Field exponentiation by a non-negative integer exponent.
pub open spec fn fpow(a: int, e: int) -> int {
    pow(a, e as nat) % f_p()
}

/// The integer denoted by four 64-bit little-endian limbs.
pub open spec fn limbs_val(e: Seq<u64>) -> int
    recommends
        e.len() == 4,
{
    e[0] + e[1] * 0x1_0000_0000_0000_0000int + e[2] * 0x1_0000_0000_0000_0000_0000_0000_0000_0000int
        + e[3] * 0x1_0000_0000_0000_0000_0000_0000_0000_0000_0000_0000_0000_0000int
}

/// Field capability: the operations the permutations need, stated over the
/// integer value (`fval`) each element denotes.
///
/// `pow` and `eq_val` may fail in the circuit backend; `infallible` says
/// whether this backend is free of such failures (the native one is).
pub trait FieldOps: Sized {
    /// The field element this value denotes, as an integer in `[0, f_p())`.
    spec fn fval(&self) -> int;

    /// Whether the fallible operations of this backend always succeed.
    spec fn infallible() -> bool;

    /// The value may be fed to this backend's operations.  The native
    /// backend accepts every value.  The circuit backend accepts its own
    /// constants and the variables of one distinguished constraint system
    /// whose assignments are available whenever an operation needs them;
    /// mixing variables of two systems, or operating on an unassigned
    /// variable of a proving-mode system, is outside the backend's contract.
    spec fn ok(&self) -> bool;

    /// An independent value denoting the same field element.
    fn dup(&self) -> (r: Self)
        ensures
            r.fval() == self.fval(),
            in_f(r.fval()),
            self.ok() ==> r.ok();

    fn zero() -> (r: Self)
        ensures
            r.fval() == 0,
            in_f(r.fval()),
            r.ok();

    fn one() -> (r: Self)
        ensures
            r.fval() == 1,
            in_f(r.fval()),
            r.ok();

    /// Embed a 128-bit integer (the domain tag); it is below `f_p()`, so no
    /// reduction happens.
    fn from_u128(x: u128) -> (r: Self)
        ensures
            r.fval() == x as int,
            in_f(r.fval()),
            r.ok();

    fn from_u64(x: u64) -> (r: Self)
        ensures
            r.fval() == x as int,
            in_f(r.fval()),
            r.ok();

    /// Embed a 256-bit little-endian limb constant, which must already be
    /// reduced.
    fn from_limbs(e: &[u64; 4]) -> (r: Self)
        requires
            limbs_val(e@) < f_p(),
        ensures
            r.fval() == limbs_val(e@),
            in_f(r.fval()),
            r.ok();

    fn add(&self, o: &Self) -> (r: Self)
        requires
            self.ok(),
            o.ok(),
        ensures
            r.fval() == fadd(self.fval(), o.fval()),
            in_f(r.fval()),
            r.ok();

    fn sub(&self, o: &Self) -> (r: Self)
        requires
            self.ok(),
            o.ok(),
        ensures
            r.fval() == fsub(self.fval(), o.fval()),
            in_f(r.fval()),
            r.ok();

    fn mul(&self, o: &Self) -> (r: Self)
        requires
            self.ok(),
            o.ok(),
        ensures
            r.fval() == fmul(self.fval(), o.fval()),
            in_f(r.fval()),
            r.ok();

    fn square(&self) -> (r: Self)
        requires
            self.ok(),
        ensures
            r.fval() == fmul(self.fval(), self.fval()),
            in_f(r.fval()),
            r.ok();

    /// Raise to the fixed 256-bit exponent given as little-endian limbs.
    fn pow(&self, e: &[u64; 4]) -> (r: Result<Self, ZkError>)
        requires
            self.ok(),
        ensures
            r matches Ok(v) ==> v.fval() == fpow(self.fval(), limbs_val(e@)) && in_f(v.fval())
                && v.ok(),
            r matches Err(z) ==> z == ZkError::Synthesis && !Self::infallible(),
            Self::infallible() ==> r is Ok;

    /// Decide whether the two values denote the same field element.
    fn eq_val(&self, o: &Self) -> (r: Result<bool, ZkError>)
        ensures
            r matches Ok(b) ==> (b <==> self.fval() == o.fval()),
            r matches Err(z) ==> z == ZkError::Synthesis && !Self::infallible(),
            Self::infallible() ==> r is Ok;
}

/// The integer values denoted by a sequence of field elements.
pub open spec fn fvals<T: FieldOps>(s: Seq<T>) -> Seq<int> {
    s.map(|i: int, x: T| x.fval())
}

/// Every element of the sequence may be fed to the backend's operations.
pub open spec fn all_ok<T: FieldOps>(s: Seq<T>) -> bool {
    forall|i: int| 0 <= i < s.len() ==> (#[trigger] s[i]).ok()
}

/// The little-endian 64-bit limbs of `f_p()`.
pub const MODULUS_LIMBS: [u64; 4] = [
    0xffffffff00000001,
    0x53bda402fffe5bfe,
    0x3339d80809a1d805,
    0x73eda753299d7d48,
];

/// Decide whether the little-endian limb value is below the field order, by
/// lexicographic comparison from the most significant limb down.
pub fn limbs_reduced(e: &[u64; 4]) -> (r: bool)
    ensures
        r <==> limbs_val(e@) < f_p(),
{
    proof {
        assert(limbs_val(MODULUS_LIMBS@) == f_p());
    }
    if e[3] != MODULUS_LIMBS[3] {
        e[3] < MODULUS_LIMBS[3]
    } else if e[2] != MODULUS_LIMBS[2] {
        e[2] < MODULUS_LIMBS[2]
    } else if e[1] != MODULUS_LIMBS[1] {
        e[1] < MODULUS_LIMBS[1]
    } else {
        e[0] < MODULUS_LIMBS[0]
    }
}

/// Convert a table of little-endian limb constants into field elements;
/// yields the elements exactly when every entry is reduced.
pub fn load_elems<T: FieldOps>(table: &[[u64; 4]]) -> (r: Option<Vec<T>>)
    ensures
        r matches Some(v) ==> {
            &&& v@.len() == table@.len()
            &&& fvals(v@) == Seq::new(table@.len(), |i: int| limbs_val(table@[i]@))
            &&& all_ok(v@)
        },
        r is Some <==> (forall|i: int|
            0 <= i < table@.len() ==> limbs_val(#[trigger] table@[i]@) < f_p()),
{
    let mut v: Vec<T> = Vec::new();
    let n = table.len();
    for i in 0..n
        invariant
            n == table@.len(),
            v@.len() == i,
            fvals(v@) == Seq::new(i as nat, |j: int| limbs_val(table@[j]@)),
            all_ok(v@),
            forall|j: int| 0 <= j < i ==> limbs_val(#[trigger] table@[j]@) < f_p(),
    {
        if !limbs_reduced(&table[i]) {
            return None;
        }
        let ghost vpre = v@;
        v.push(T::from_limbs(&table[i]));
        proof {
            assert forall|j: int| 0 <= j < i + 1 implies fvals(v@)[j] == limbs_val(
                table@[j]@,
            ) by {
                if j < i {
                    assert(fvals(vpre)[j] == Seq::new(i as nat, |k: int| limbs_val(table@[k]@))[j]);
                    assert(v@[j] == vpre[j]);
                } else {
                    assert(v@[j].fval() == limbs_val(table@[i as int]@));
                }
            }
            assert(fvals(v@) =~= Seq::new((i + 1) as nat, |j: int| limbs_val(table@[j]@)));
        }
    }
    proof {
        assert(fvals(v@) =~= Seq::new(table@.len(), |j: int| limbs_val(table@[j]@)));
    }
    Some(v)
}

/// Adding then subtracting a value is the identity on reduced values.
pub proof fn lemma_fadd_fsub_cancel(m: int, k: int)
    requires
        in_f(m),
    ensures
        fsub(fadd(m, k), k) == m,
        fsub(fadd(k, m), k) == m,
{
    vstd::arithmetic::div_mod::lemma_sub_mod_noop_right((m + k) % f_p(), k, f_p());
    vstd::arithmetic::div_mod::lemma_sub_mod_noop(m + k, k, f_p());
    vstd::arithmetic::div_mod::lemma_small_mod(m as nat, f_p() as nat);
    assert(fsub(fadd(m, k), k) == (m + k - k) % f_p());
    assert((m + k - k) % f_p() == m % f_p());
    assert(fadd(k, m) == fadd(m, k));
}

} // verus!
