//! The Neptune permutation and its sponge chip.
//!
//! Four field lanes; four external rounds, sixty-eight internal rounds, and
//! four more external rounds.  External rounds apply a two-input S-box to
//! each lane pair and a fixed 4x4 mix; internal rounds apply a power map to
//! lane 0 and a diagonal-plus-all-ones mix.  Round-constant blocks are
//! indexed 0..3 for the leading external rounds, 4..71 for the internal
//! rounds, and 68..71 for the trailing external rounds.

use vstd::prelude::*;
use crate::drivers::{
    ae_output, ae_state, ae_tag, hash_out, hash_state, hash_tag, sponge_ae, sponge_hash,
};
use crate::field::{
    all_ok, fadd, fmul, fpow, fsub, fvals, in_f, lemma_fadd_fsub_cancel, limbs_val, FieldOps,
    ZkError,
};
use crate::plain::FPlain;
use crate::sponge::{init_st, ChipAPI, Sponge};

verus! {

/// The sponge rate.
pub const R: usize = 1;

/// The number of state lanes.
pub const M: usize = 4;

/// The number of leading external rounds.
pub const NEB: usize = 4;

/// The number of internal rounds.
pub const NI: usize = 68;

/// The number of trailing external rounds.
pub const NEE: usize = 4;

/// The two-input S-box of the external rounds.
pub open spec fn np_s(x0: int, x1: int, g: int) -> (int, int) {
    let d01 = fsub(x0, x1);
    let t = fmul(d01, d01);
    let u0 = fsub(fsub(fsub(fadd(g, x0), x1), x1), t);
    let u = fmul(u0, u0);
    (
        fadd(fadd(fadd(fadd(fadd(fadd(x0, x0), x1), t), t), t), u),
        fadd(fadd(fadd(fadd(fadd(fadd(fadd(fadd(x0, x1), x1), x1), t), t), t), t), u),
    )
}

/// One external round at round-constant block `r`.
pub open spec fn np_ext(s: (int, int, int, int), rcs: Seq<int>, g: int, r: int) -> (
    int,
    int,
    int,
    int,
) {
    let ab = np_s(s.0, s.1, g);
    let cd = np_s(s.2, s.3, g);
    (
        fadd(fadd(fadd(ab.0, ab.0), cd.0), rcs[4 * r]),
        fadd(fadd(fadd(ab.1, cd.1), cd.1), rcs[4 * r + 1]),
        fadd(fadd(fadd(ab.0, cd.0), cd.0), rcs[4 * r + 2]),
        fadd(fadd(fadd(ab.1, ab.1), cd.1), rcs[4 * r + 3]),
    )
}

/// One internal round at round-constant block `r`.
pub open spec fn np_int(
    s: (int, int, int, int),
    rcs: Seq<int>,
    dv: int,
    mat: Seq<int>,
    r: int,
) -> (int, int, int, int) {
    let a = fpow(s.0, dv);
    let sum = fadd(fadd(fadd(a, s.1), s.2), s.3);
    (
        fadd(fsub(fadd(fmul(a, mat[0]), sum), a), rcs[4 * r]),
        fadd(fsub(fadd(fmul(s.1, mat[1]), sum), s.1), rcs[4 * r + 1]),
        fadd(fsub(fadd(fmul(s.2, mat[2]), sum), s.2), rcs[4 * r + 2]),
        fadd(fsub(fadd(fmul(s.3, mat[3]), sum), s.3), rcs[4 * r + 3]),
    )
}

/// `n` external rounds starting at round-constant block `base`.
pub open spec fn np_exts(s: (int, int, int, int), rcs: Seq<int>, g: int, base: int, n: nat) -> (
    int,
    int,
    int,
    int,
)
    decreases n,
{
    if n == 0 {
        s
    } else {
        np_ext(np_exts(s, rcs, g, base, (n - 1) as nat), rcs, g, base + n - 1)
    }
}

/// `n` internal rounds starting at round-constant block `base`.
pub open spec fn np_ints(
    s: (int, int, int, int),
    rcs: Seq<int>,
    dv: int,
    mat: Seq<int>,
    base: int,
    n: nat,
) -> (int, int, int, int)
    decreases n,
{
    if n == 0 {
        s
    } else {
        np_int(np_ints(s, rcs, dv, mat, base, (n - 1) as nat), rcs, dv, mat, base + n - 1)
    }
}

/// The full Neptune permutation on a four-lane state.
#[verifier::opaque]
pub open spec fn np_perm(s: Seq<int>, rcs: Seq<int>, g: int, dv: int, mat: Seq<int>) -> Seq<int> {
    let s1 = np_exts((s[0], s[1], s[2], s[3]), rcs, g, 0, NEB as nat);
    let s2 = np_ints(s1, rcs, dv, mat, 4, NI as nat);
    let o = np_exts(s2, rcs, g, 68, NEE as nat);
    seq![o.0, o.1, o.2, o.3]
}

/// The parameters of a Neptune instance: the round counts, `4 * 76` round
/// constants, the S-box constant `gamma`, the internal power-map exponent as
/// little-endian limbs, and the four internal-matrix diagonal entries.
pub struct NeptuneParameters<T> {
    pub nb_rounds_ext: [usize; 2],
    pub nb_rounds_int: usize,
    pub round_constants: Vec<T>,
    pub gamma: T,
    pub d: [u64; 4],
    pub matrix_int: Vec<T>,
}

impl<T: FieldOps> NeptuneParameters<T> {
    pub open spec fn wf(&self) -> bool {
        &&& self.nb_rounds_ext@[0] == NEB
        &&& self.nb_rounds_ext@[1] == NEE
        &&& self.nb_rounds_int == NI
        &&& self.round_constants@.len() == 4 * (NEB + NI + NEE)
        &&& self.matrix_int@.len() == 4
        &&& all_ok(self.round_constants@)
        &&& self.gamma.ok()
        &&& all_ok(self.matrix_int@)
    }

    pub open spec fn rcs(&self) -> Seq<int> {
        fvals(self.round_constants@)
    }

    pub open spec fn gv(&self) -> int {
        self.gamma.fval()
    }

    pub open spec fn dv(&self) -> int {
        limbs_val(self.d@)
    }

    pub open spec fn matv(&self) -> Seq<int> {
        fvals(self.matrix_int@)
    }
}

/// A Neptune chip: the parameters and the four state lanes.
pub struct NeptuneChip<T> {
    pub parameters: NeptuneParameters<T>,
    pub lane0: T,
    pub lane1: T,
    pub lane2: T,
    pub lane3: T,
}

impl<T: FieldOps> NeptuneChip<T> {
    /// A fresh chip with a zero state.
    pub fn new(parameters: NeptuneParameters<T>) -> (r: NeptuneChip<T>)
        requires
            parameters.wf(),
        ensures
            r.wf(),
            r.parameters == parameters,
            r.st() == seq![0int, 0int, 0int, 0int],
    {
        let r = NeptuneChip {
            parameters,
            lane0: T::zero(),
            lane1: T::zero(),
            lane2: T::zero(),
            lane3: T::zero(),
        };
        proof {
            assert(r.st() =~= seq![0int, 0int, 0int, 0int]);
        }
        r
    }

    /// The two-input S-box.
    fn s_func(x0: &T, x1: &T, gamma: &T) -> (r: (T, T))
        requires
            x0.ok(),
            x1.ok(),
            gamma.ok(),
        ensures
            r.0.ok() && r.1.ok(),
            (r.0.fval(), r.1.fval()) == np_s(x0.fval(), x1.fval(), gamma.fval()),
    {
        let d01 = x0.sub(x1);
        let t = d01.square();
        let u0 = gamma.add(x0).sub(x1).sub(x1).sub(&t);
        let u = u0.square();
        let y0 = x0.add(x0).add(x1).add(&t).add(&t).add(&t).add(&u);
        let y1 = x0.add(x1).add(x1).add(x1).add(&t).add(&t).add(&t).add(&t).add(&u);
        (y0, y1)
    }

    /// One external round at round-constant block `r`.
    fn external_round(&self, s: (T, T, T, T), r: usize) -> (o: (T, T, T, T))
        requires
            self.parameters.wf(),
            r < 72,
            s.0.ok() && s.1.ok() && s.2.ok() && s.3.ok(),
        ensures
            o.0.ok() && o.1.ok() && o.2.ok() && o.3.ok(),
            (o.0.fval(), o.1.fval(), o.2.fval(), o.3.fval()) == np_ext(
                (s.0.fval(), s.1.fval(), s.2.fval(), s.3.fval()),
                self.parameters.rcs(),
                self.parameters.gv(),
                r as int,
            ),
    {
        let p = &self.parameters;
        let (a, b) = Self::s_func(&s.0, &s.1, &p.gamma);
        let (c, d) = Self::s_func(&s.2, &s.3, &p.gamma);
        (
            a.add(&a).add(&c).add(&p.round_constants[4 * r]),
            b.add(&d).add(&d).add(&p.round_constants[4 * r + 1]),
            a.add(&c).add(&c).add(&p.round_constants[4 * r + 2]),
            b.add(&b).add(&d).add(&p.round_constants[4 * r + 3]),
        )
    }

    /// One internal round at round-constant block `r`.
    fn internal_round(&self, s: (T, T, T, T), r: usize) -> (o: Result<(T, T, T, T), ZkError>)
        requires
            self.parameters.wf(),
            r < 72,
            s.0.ok() && s.1.ok() && s.2.ok() && s.3.ok(),
        ensures
            o matches Ok(v) ==> (v.0.ok() && v.1.ok() && v.2.ok() && v.3.ok()),
            o matches Ok(v) ==> (v.0.fval(), v.1.fval(), v.2.fval(), v.3.fval()) == np_int(
                (s.0.fval(), s.1.fval(), s.2.fval(), s.3.fval()),
                self.parameters.rcs(),
                self.parameters.dv(),
                self.parameters.matv(),
                r as int,
            ),
            o matches Err(z) ==> z == ZkError::Synthesis && !T::infallible(),
            T::infallible() ==> o is Ok,
    {
        let p = &self.parameters;
        let a = match s.0.pow(&p.d) {
            Ok(v) => v,
            Err(e) => {
                return Err(e);
            },
        };
        let sum = a.add(&s.1).add(&s.2).add(&s.3);
        Ok(
            (
                a.mul(&p.matrix_int[0]).add(&sum).sub(&a).add(&p.round_constants[4 * r]),
                s.1.mul(&p.matrix_int[1]).add(&sum).sub(&s.1).add(&p.round_constants[4 * r + 1]),
                s.2.mul(&p.matrix_int[2]).add(&sum).sub(&s.2).add(&p.round_constants[4 * r + 2]),
                s.3.mul(&p.matrix_int[3]).add(&sum).sub(&s.3).add(&p.round_constants[4 * r + 3]),
            ),
        )
    }

    /// `n` external rounds starting at round-constant block `base`.
    #[verifier::loop_isolation(false)]
    #[verifier::rlimit(100)]
    fn run_externals(&self, s: (T, T, T, T), base: usize, n: usize) -> (o: (T, T, T, T))
        requires
            self.parameters.wf(),
            base + n <= 72,
            s.0.ok() && s.1.ok() && s.2.ok() && s.3.ok(),
        ensures
            o.0.ok() && o.1.ok() && o.2.ok() && o.3.ok(),
            (o.0.fval(), o.1.fval(), o.2.fval(), o.3.fval()) == np_exts(
                (s.0.fval(), s.1.fval(), s.2.fval(), s.3.fval()),
                self.parameters.rcs(),
                self.parameters.gv(),
                base as int,
                n as nat,
            ),
    {
        let ghost sv = (s.0.fval(), s.1.fval(), s.2.fval(), s.3.fval());
        let mut cur = s;
        for i in 0..n
            invariant
                cur.0.ok() && cur.1.ok() && cur.2.ok() && cur.3.ok(),
                (cur.0.fval(), cur.1.fval(), cur.2.fval(), cur.3.fval()) == np_exts(
                    sv,
                    self.parameters.rcs(),
                    self.parameters.gv(),
                    base as int,
                    i as nat,
                ),
        {
            cur = self.external_round(cur, base + i);
        }
        cur
    }

    /// `n` internal rounds starting at round-constant block `base`.
    #[verifier::loop_isolation(false)]
    #[verifier::rlimit(100)]
    fn run_internals(&self, s: (T, T, T, T), base: usize, n: usize) -> (o: Result<
        (T, T, T, T),
        ZkError,
    >)
        requires
            self.parameters.wf(),
            base + n <= 72,
            s.0.ok() && s.1.ok() && s.2.ok() && s.3.ok(),
        ensures
            o matches Ok(v) ==> (v.0.ok() && v.1.ok() && v.2.ok() && v.3.ok()),
            o matches Ok(v) ==> (v.0.fval(), v.1.fval(), v.2.fval(), v.3.fval()) == np_ints(
                (s.0.fval(), s.1.fval(), s.2.fval(), s.3.fval()),
                self.parameters.rcs(),
                self.parameters.dv(),
                self.parameters.matv(),
                base as int,
                n as nat,
            ),
            o matches Err(z) ==> z == ZkError::Synthesis && !T::infallible(),
            T::infallible() ==> o is Ok,
    {
        let ghost sv = (s.0.fval(), s.1.fval(), s.2.fval(), s.3.fval());
        let mut cur = s;
        for i in 0..n
            invariant
                cur.0.ok() && cur.1.ok() && cur.2.ok() && cur.3.ok(),
                (cur.0.fval(), cur.1.fval(), cur.2.fval(), cur.3.fval()) == np_ints(
                    sv,
                    self.parameters.rcs(),
                    self.parameters.dv(),
                    self.parameters.matv(),
                    base as int,
                    i as nat,
                ),
        {
            cur = match self.internal_round(cur, base + i) {
                Ok(v) => v,
                Err(e) => {
                    return Err(e);
                },
            };
        }
        Ok(cur)
    }
}

impl<T: FieldOps> ChipAPI for NeptuneChip<T> {
    type Value = T;

    open spec fn st(&self) -> Seq<int> {
        seq![self.lane0.fval(), self.lane1.fval(), self.lane2.fval(), self.lane3.fval()]
    }

    open spec fn width(&self) -> nat {
        4
    }

    open spec fn wf(&self) -> bool {
        &&& self.parameters.wf()
        &&& self.lane0.ok() && self.lane1.ok() && self.lane2.ok() && self.lane3.ok()
    }

    open spec fn perm(&self, s: Seq<int>) -> Seq<int> {
        np_perm(
            s,
            self.parameters.rcs(),
            self.parameters.gv(),
            self.parameters.dv(),
            self.parameters.matv(),
        )
    }

    proof fn lemma_perm_len(&self, s: Seq<int>) {
        reveal(np_perm);
    }

    proof fn lemma_st_len(&self) {
    }

    fn init(&mut self, tag: u128) -> (r: Result<(), ZkError>) {
        self.lane0 = T::zero();
        self.lane1 = T::from_u128(tag);
        self.lane2 = T::zero();
        self.lane3 = T::zero();
        proof {
            assert(self.st() =~= init_st(4, tag));
        }
        Ok(())
    }

    fn read(&self) -> (r: T) {
        self.lane0.dup()
    }

    fn add(&mut self, x: &T) -> (r: Result<(), ZkError>) {
        self.lane0 = self.lane0.add(x);
        proof {
            assert(self.st() =~= old(self).st().update(0, fadd(old(self).st()[0], x.fval())));
        }
        Ok(())
    }

    #[verifier::rlimit(100)]
    fn permutation(&mut self) -> (r: Result<(), ZkError>) {
        let s0 = (self.lane0.dup(), self.lane1.dup(), self.lane2.dup(), self.lane3.dup());
        let s1 = self.run_externals(s0, 0, NEB);
        let s2 = match self.run_internals(s1, 4, NI) {
            Ok(v) => v,
            Err(e) => {
                return Err(e);
            },
        };
        let o = self.run_externals(s2, 68, NEE);
        self.lane0 = o.0;
        self.lane1 = o.1;
        self.lane2 = o.2;
        self.lane3 = o.3;
        proof {
            reveal(np_perm);
            let stv = old(self).st();
            assert((stv[0], stv[1], stv[2], stv[3]) == (s0.0.fval(), s0.1.fval(), s0.2.fval(), s0.3.fval()));
            let pv = np_perm(
                stv,
                self.parameters.rcs(),
                self.parameters.gv(),
                self.parameters.dv(),
                self.parameters.matv(),
            );
            assert(pv == seq![o.0.fval(), o.1.fval(), o.2.fval(), o.3.fval()]);
            assert(self.st() =~= pv);
        }
        Ok(())
    }
}

/// The sponge-hash state fold of a Neptune instance with the given parameter
/// values.
pub open spec fn np_hash_state(
    rcs: Seq<int>,
    g: int,
    dv: int,
    mat: Seq<int>,
    tag: u128,
    ms: Seq<int>,
) -> Seq<int>
    decreases ms.len(),
{
    if ms.len() == 0 {
        init_st(4, tag)
    } else {
        let p = np_hash_state(rcs, g, dv, mat, tag, ms.drop_last());
        np_perm(p.update(0, fadd(p[0], ms.last())), rcs, g, dv, mat)
    }
}

/// The sponge-hash digest of a Neptune instance.
pub open spec fn np_hash_out(
    rcs: Seq<int>,
    g: int,
    dv: int,
    mat: Seq<int>,
    tag: u128,
    ms: Seq<int>,
) -> int {
    if ms.len() == 0 {
        np_perm(init_st(4, tag), rcs, g, dv, mat)[0]
    } else {
        np_hash_state(rcs, g, dv, mat, tag, ms)[0]
    }
}

/// The sponge-AE state fold of a Neptune instance.
pub open spec fn np_ae_state(
    rcs: Seq<int>,
    g: int,
    dv: int,
    mat: Seq<int>,
    tag: u128,
    k: int,
    nv: int,
    ms: Seq<int>,
) -> Seq<int>
    decreases ms.len(),
{
    if ms.len() == 0 {
        let st0 = init_st(4, tag);
        let st1 = np_perm(st0.update(0, fadd(st0[0], k)), rcs, g, dv, mat);
        st1.update(0, fadd(st1[0], nv))
    } else {
        let p = np_perm(np_ae_state(rcs, g, dv, mat, tag, k, nv, ms.drop_last()), rcs, g, dv, mat);
        p.update(0, fadd(p[0], ms.last()))
    }
}

/// The sponge-AE output of a Neptune instance: ciphertext blocks, then the
/// tag.
pub open spec fn np_ae_output(
    rcs: Seq<int>,
    g: int,
    dv: int,
    mat: Seq<int>,
    tag: u128,
    k: int,
    nv: int,
    ms: Seq<int>,
) -> Seq<int> {
    Seq::new(
        ms.len() + 1,
        |i: int|
            if i < ms.len() {
                fadd(
                    np_perm(np_ae_state(rcs, g, dv, mat, tag, k, nv, ms.take(i)), rcs, g, dv, mat)[0],
                    ms[i],
                )
            } else {
                np_perm(np_ae_state(rcs, g, dv, mat, tag, k, nv, ms), rcs, g, dv, mat)[0]
            },
    )
}

/// Neptune sponge AE is invertible: for reduced message values, each message
/// block is its ciphertext block minus the keystream element, which depends
/// only on the key, the nonce, and the earlier blocks.
pub proof fn lemma_np_ae_recoverable(
    rcs: Seq<int>,
    g: int,
    dv: int,
    mat: Seq<int>,
    tag: u128,
    k: int,
    nv: int,
    ms: Seq<int>,
)
    requires
        forall|i: int| 0 <= i < ms.len() ==> in_f(#[trigger] ms[i]),
    ensures
        forall|i: int|
            0 <= i < ms.len() ==> fsub(
                #[trigger] np_ae_output(rcs, g, dv, mat, tag, k, nv, ms)[i],
                np_perm(np_ae_state(rcs, g, dv, mat, tag, k, nv, ms.take(i)), rcs, g, dv, mat)[0],
            ) == ms[i],
{
    assert forall|i: int| 0 <= i < ms.len() implies fsub(
        #[trigger] np_ae_output(rcs, g, dv, mat, tag, k, nv, ms)[i],
        np_perm(np_ae_state(rcs, g, dv, mat, tag, k, nv, ms.take(i)), rcs, g, dv, mat)[0],
    ) == ms[i] by {
        lemma_fadd_fsub_cancel(
            ms[i],
            np_perm(np_ae_state(rcs, g, dv, mat, tag, k, nv, ms.take(i)), rcs, g, dv, mat)[0],
        );
    }
}

/// A chip carrying the given parameter values folds messages to the Neptune
/// hash states.
proof fn lemma_np_hash<T: FieldOps>(c: NeptuneChip<T>, tag: u128, ms: Seq<int>)
    ensures
        hash_state(c, 4, tag, ms) == np_hash_state(
            c.parameters.rcs(),
            c.parameters.gv(),
            c.parameters.dv(),
            c.parameters.matv(),
            tag,
            ms,
        ),
        hash_out(c, 4, tag, ms) == np_hash_out(
            c.parameters.rcs(),
            c.parameters.gv(),
            c.parameters.dv(),
            c.parameters.matv(),
            tag,
            ms,
        ),
    decreases ms.len(),
{
    if ms.len() > 0 {
        lemma_np_hash(c, tag, ms.drop_last());
    }
}

/// A chip carrying the given parameter values folds AE transcripts to the
/// Neptune AE states.
proof fn lemma_np_ae_state<T: FieldOps>(c: NeptuneChip<T>, tag: u128, k: int, nv: int, ms: Seq<int>)
    ensures
        ae_state(c, 4, tag, k, nv, ms) == np_ae_state(
            c.parameters.rcs(),
            c.parameters.gv(),
            c.parameters.dv(),
            c.parameters.matv(),
            tag,
            k,
            nv,
            ms,
        ),
    decreases ms.len(),
{
    if ms.len() > 0 {
        lemma_np_ae_state(c, tag, k, nv, ms.drop_last());
    }
}

/// A chip carrying the given parameter values produces the Neptune AE output.
proof fn lemma_np_ae<T: FieldOps>(c: NeptuneChip<T>, tag: u128, k: int, nv: int, ms: Seq<int>)
    ensures
        ae_output(c, 4, tag, k, nv, ms) == np_ae_output(
            c.parameters.rcs(),
            c.parameters.gv(),
            c.parameters.dv(),
            c.parameters.matv(),
            tag,
            k,
            nv,
            ms,
        ),
{
    assert forall|i: int| 0 <= i <= ms.len() implies ae_state(c, 4, tag, k, nv, #[trigger] ms.take(i))
        == np_ae_state(
        c.parameters.rcs(),
        c.parameters.gv(),
        c.parameters.dv(),
        c.parameters.matv(),
        tag,
        k,
        nv,
        ms.take(i),
    ) by {
        lemma_np_ae_state(c, tag, k, nv, ms.take(i));
    }
    lemma_np_ae_state(c, tag, k, nv, ms);
    assert(ae_output(c, 4, tag, k, nv, ms) =~= np_ae_output(
        c.parameters.rcs(),
        c.parameters.gv(),
        c.parameters.dv(),
        c.parameters.matv(),
        tag,
        k,
        nv,
        ms,
    ));
}

/// The BLS12-381 Neptune primitives: sponge hash and sponge AE over native
/// field elements, under a caller-supplied parameter set.
pub struct NeptunePrimitivesBlsFr {}

impl NeptunePrimitivesBlsFr {
    /// Hash a message of field elements to one field element.
    pub fn hash(parameters: NeptuneParameters<FPlain>, message: &Vec<FPlain>) -> (r: Result<
        FPlain,
        ZkError,
    >)
        requires
            parameters.wf(),
            message@.len() < 0x8000_0000,
        ensures
            r matches Ok(h) ==> h.fval() == np_hash_out(
                parameters.rcs(),
                parameters.gv(),
                parameters.dv(),
                parameters.matv(),
                hash_tag(message@.len()),
                fvals(message@),
            ),
            r is Ok,
    {
        let ghost p0 = parameters;
        let chip = NeptuneChip::new(parameters);
        let ghost c0 = chip;
        let mut sponge = Sponge::new(chip);
        proof {
            assert(all_ok(message@));
        }
        match sponge_hash(&mut sponge, message) {
            Ok(h) => {
                proof {
                    lemma_np_hash(c0, hash_tag(message@.len()), fvals(message@));
                }
                Ok(h)
            },
            Err(e) => {
                proof {
                    assert(false);
                }
                Err(e)
            },
        }
    }

    /// Encrypt a message under a one-element key and nonce; the result is the
    /// ciphertext blocks followed by the authentication tag.
    pub fn ae(
        parameters: NeptuneParameters<FPlain>,
        message: &Vec<FPlain>,
        key: &FPlain,
        nonce: &FPlain,
    ) -> (r: Result<Vec<FPlain>, ZkError>)
        requires
            parameters.wf(),
            message@.len() < 0x4000_0000,
        ensures
            r matches Ok(ct) ==> {
                &&& ct@.len() == message@.len() + 1
                &&& fvals(ct@) == np_ae_output(
                    parameters.rcs(),
                    parameters.gv(),
                    parameters.dv(),
                    parameters.matv(),
                    ae_tag(message@.len()),
                    key.fval(),
                    nonce.fval(),
                    fvals(message@),
                )
            },
            r is Ok,
    {
        let ghost p0 = parameters;
        let chip = NeptuneChip::new(parameters);
        let ghost c0 = chip;
        let mut sponge = Sponge::new(chip);
        proof {
            assert(all_ok(message@));
        }
        match sponge_ae(&mut sponge, message, key, nonce) {
            Ok(ct) => {
                proof {
                    lemma_np_ae(
                        c0,
                        ae_tag(message@.len()),
                        key.fval(),
                        nonce.fval(),
                        fvals(message@),
                    );
                }
                Ok(ct)
            },
            Err(e) => {
                proof {
                    assert(false);
                }
                Err(e)
            },
        }
    }
}

} // verus!
