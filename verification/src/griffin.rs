//! The Griffin permutation and its sponge chip.
//!
//! Twelve rounds over three field lanes.  Each round applies the non-linear
//! layer — inverse power map on lane 0, forward power map on lane 1, and a
//! quadratic L-function of the two on lane 2 — followed by the near-MDS mix
//! that adds the lane sum to every lane, plus round constants (the final
//! round mixes without constants, and one extra mix precedes the rounds).

use vstd::prelude::*;
use crate::drivers::{
    ae_output, ae_state, ae_tag, hash_out, hash_state, hash_tag, sponge_ae, sponge_hash,
};
use crate::field::{
    all_ok, f_p, fadd, fmul, fpow, fsub, fvals, in_f, lemma_fadd_fsub_cancel, limbs_val,
    load_elems, FieldOps, ZkError,
};
use crate::plain::FPlain;
use crate::sponge::{init_st, ChipAPI, Sponge};

verus! {

/// The sponge rate.
pub const R: usize = 1;

/// The number of state lanes.
pub const M: usize = 3;

/// The number of rounds.
pub const N: usize = 12;

/// The non-linear layer: `lane0^(1/d)`, `lane1^d`, and the quadratic
/// L-function `t^2 + alpha * t + beta` of their sum `t` on lane 2.
pub open spec fn gr_nl(s: (int, int, int), dv: int, div: int, al: int, be: int) -> (int, int, int) {
    let a = fpow(s.0, div);
    let b = fpow(s.1, dv);
    let t = fadd(a, b);
    (a, b, fadd(fadd(fmul(t, t), fmul(al, t)), be))
}

/// The near-MDS mix with round constants: add the lane sum and a constant to
/// each lane.
pub open spec fn gr_mix_rc(s: (int, int, int), rcs: Seq<int>, r: int) -> (int, int, int) {
    let sum = fadd(fadd(s.0, s.1), s.2);
    (
        fadd(fadd(s.0, sum), rcs[3 * r]),
        fadd(fadd(s.1, sum), rcs[3 * r + 1]),
        fadd(fadd(s.2, sum), rcs[3 * r + 2]),
    )
}

/// The near-MDS mix without constants.
pub open spec fn gr_mix(s: (int, int, int)) -> (int, int, int) {
    let sum = fadd(fadd(s.0, s.1), s.2);
    (fadd(s.0, sum), fadd(s.1, sum), fadd(s.2, sum))
}

/// One full round with constants at round index `r`.
pub open spec fn gr_round(
    s: (int, int, int),
    rcs: Seq<int>,
    dv: int,
    div: int,
    al: int,
    be: int,
    r: int,
) -> (int, int, int) {
    gr_mix_rc(gr_nl(s, dv, div, al, be), rcs, r)
}

/// The first `n` rounds with constants.
pub open spec fn gr_rounds(
    s: (int, int, int),
    rcs: Seq<int>,
    dv: int,
    div: int,
    al: int,
    be: int,
    n: nat,
) -> (int, int, int)
    decreases n,
{
    if n == 0 {
        s
    } else {
        gr_round(gr_rounds(s, rcs, dv, div, al, be, (n - 1) as nat), rcs, dv, div, al, be, n - 1)
    }
}

/// The full permutation: an initial mix, `nr - 1` rounds with constants, and
/// a final non-linear layer plus mix without constants.
pub open spec fn gr_perm(
    s: Seq<int>,
    rcs: Seq<int>,
    dv: int,
    div: int,
    al: int,
    be: int,
    nr: nat,
) -> Seq<int> {
    let s1 = gr_mix((s[0], s[1], s[2]));
    let s2 = gr_rounds(s1, rcs, dv, div, al, be, (nr - 1) as nat);
    let o = gr_mix(gr_nl(s2, dv, div, al, be));
    seq![o.0, o.1, o.2]
}

/// The parameters of a Griffin instance: the round count, `3 * (nb_rounds -
/// 1)` round constants, the two field constants of the L-function, and the
/// power-map exponents as little-endian limbs.
pub struct GriffinParameters<T> {
    pub nb_rounds: usize,
    pub round_constants: Vec<T>,
    pub alpha: T,
    pub beta: T,
    pub d: [u64; 4],
    pub d_inv: [u64; 4],
}

impl<T: FieldOps> GriffinParameters<T> {
    pub open spec fn wf(&self) -> bool {
        &&& 1 <= self.nb_rounds
        &&& 3 * self.nb_rounds <= usize::MAX
        &&& self.round_constants@.len() == 3 * (self.nb_rounds - 1)
        &&& all_ok(self.round_constants@)
        &&& self.alpha.ok()
        &&& self.beta.ok()
    }

    pub open spec fn rcs(&self) -> Seq<int> {
        fvals(self.round_constants@)
    }

    pub open spec fn av(&self) -> int {
        self.alpha.fval()
    }

    pub open spec fn bv(&self) -> int {
        self.beta.fval()
    }

    pub open spec fn dv(&self) -> int {
        limbs_val(self.d@)
    }

    pub open spec fn div(&self) -> int {
        limbs_val(self.d_inv@)
    }
}

/// A Griffin chip: the parameters and the three state lanes.
pub struct GriffinChip<T> {
    pub parameters: GriffinParameters<T>,
    pub lane0: T,
    pub lane1: T,
    pub lane2: T,
}

impl<T: FieldOps> GriffinChip<T> {
    /// A fresh chip with a zero state.
    pub fn new(parameters: GriffinParameters<T>) -> (r: GriffinChip<T>)
        requires
            parameters.wf(),
        ensures
            r.wf(),
            r.parameters == parameters,
            r.st() == seq![0int, 0int, 0int],
    {
        let r = GriffinChip { parameters, lane0: T::zero(), lane1: T::zero(), lane2: T::zero() };
        proof {
            assert(r.st() =~= seq![0int, 0int, 0int]);
        }
        r
    }

    /// The non-linear layer on a copy of the state.
    fn nl(&self, s: (T, T, T)) -> (r: Result<(T, T, T), ZkError>)
        requires
            self.parameters.wf(),
            s.0.ok() && s.1.ok() && s.2.ok(),
        ensures
            r matches Ok(o) ==> (o.0.ok() && o.1.ok() && o.2.ok()),
            r matches Ok(o) ==> (o.0.fval(), o.1.fval(), o.2.fval()) == gr_nl(
                (s.0.fval(), s.1.fval(), s.2.fval()),
                self.parameters.dv(),
                self.parameters.div(),
                self.parameters.av(),
                self.parameters.bv(),
            ),
            r matches Err(z) ==> z == ZkError::Synthesis && !T::infallible(),
            T::infallible() ==> r is Ok,
    {
        let p = &self.parameters;
        let a = match s.0.pow(&p.d_inv) {
            Ok(v) => v,
            Err(e) => {
                return Err(e);
            },
        };
        let b = match s.1.pow(&p.d) {
            Ok(v) => v,
            Err(e) => {
                return Err(e);
            },
        };
        let t = a.add(&b);
        let c = t.square().add(&p.alpha.mul(&t)).add(&p.beta);
        Ok((a, b, c))
    }

    /// The mix with round constants at round index `r`.
    fn mix_rc(&self, s: (T, T, T), r: usize) -> (o: (T, T, T))
        requires
            self.parameters.wf(),
            r < self.parameters.nb_rounds - 1,
            s.0.ok() && s.1.ok() && s.2.ok(),
        ensures
            o.0.ok() && o.1.ok() && o.2.ok(),
            (o.0.fval(), o.1.fval(), o.2.fval()) == gr_mix_rc(
                (s.0.fval(), s.1.fval(), s.2.fval()),
                self.parameters.rcs(),
                r as int,
            ),
    {
        let p = &self.parameters;
        let sum = s.0.add(&s.1).add(&s.2);
        (
            s.0.add(&sum).add(&p.round_constants[3 * r]),
            s.1.add(&sum).add(&p.round_constants[3 * r + 1]),
            s.2.add(&sum).add(&p.round_constants[3 * r + 2]),
        )
    }

    /// The mix without constants.
    fn mix(&self, s: (T, T, T)) -> (o: (T, T, T))
        requires
            s.0.ok() && s.1.ok() && s.2.ok(),
        ensures
            o.0.ok() && o.1.ok() && o.2.ok(),
            (o.0.fval(), o.1.fval(), o.2.fval()) == gr_mix((s.0.fval(), s.1.fval(), s.2.fval())),
    {
        let sum = s.0.add(&s.1).add(&s.2);
        (s.0.add(&sum), s.1.add(&sum), s.2.add(&sum))
    }
}

impl<T: FieldOps> ChipAPI for GriffinChip<T> {
    type Value = T;

    open spec fn st(&self) -> Seq<int> {
        seq![self.lane0.fval(), self.lane1.fval(), self.lane2.fval()]
    }

    open spec fn width(&self) -> nat {
        3
    }

    open spec fn wf(&self) -> bool {
        &&& self.parameters.wf()
        &&& self.lane0.ok() && self.lane1.ok() && self.lane2.ok()
    }

    open spec fn perm(&self, s: Seq<int>) -> Seq<int> {
        gr_perm(
            s,
            self.parameters.rcs(),
            self.parameters.dv(),
            self.parameters.div(),
            self.parameters.av(),
            self.parameters.bv(),
            self.parameters.nb_rounds as nat,
        )
    }

    proof fn lemma_perm_len(&self, s: Seq<int>) {
    }

    proof fn lemma_st_len(&self) {
    }

    fn init(&mut self, tag: u128) -> (r: Result<(), ZkError>) {
        self.lane0 = T::zero();
        self.lane1 = T::from_u128(tag);
        self.lane2 = T::zero();
        proof {
            assert(self.st() =~= init_st(3, tag));
        }
        Ok(())
    }

    fn read(&self) -> (r: T) {
        self.lane0.dup()
    }

    fn add(&mut self, x: &T) -> (r: Result<(), ZkError>) {
        self.lane0 = self.lane0.add(x);
        proof {
            assert(self.st() =~= old(self).st().update(0, fadd(old(self).st()[0], x.fval())));
        }
        Ok(())
    }

    #[verifier::loop_isolation(false)]
    fn permutation(&mut self) -> (r: Result<(), ZkError>) {
        let ghost st0 = (self.lane0.fval(), self.lane1.fval(), self.lane2.fval());
        let mut s = self.mix((self.lane0.dup(), self.lane1.dup(), self.lane2.dup()));
        let n = self.parameters.nb_rounds - 1;
        for i in 0..n
            invariant
                n == self.parameters.nb_rounds - 1,
                s.0.ok() && s.1.ok() && s.2.ok(),
                (s.0.fval(), s.1.fval(), s.2.fval()) == gr_rounds(
                    gr_mix(st0),
                    self.parameters.rcs(),
                    self.parameters.dv(),
                    self.parameters.div(),
                    self.parameters.av(),
                    self.parameters.bv(),
                    i as nat,
                ),
        {
            let t = match self.nl(s) {
                Ok(t) => t,
                Err(e) => {
                    return Err(e);
                },
            };
            s = self.mix_rc(t, i);
        }
        let t = match self.nl(s) {
            Ok(t) => t,
            Err(e) => {
                return Err(e);
            },
        };
        let o = self.mix(t);
        self.lane0 = o.0;
        self.lane1 = o.1;
        self.lane2 = o.2;
        proof {
            assert(self.st() =~= old(self).perm(old(self).st()));
        }
        Ok(())
    }
}
/// The additive constant `alpha` of the quadratic L-function, as limbs.
pub const ALPHA: [u64; 4] = [0xc86ad9c250e9ba5e, 0x3ed6ec227ea78169, 0xd82ec6ff27d41eac, 0x00d560c0b02f92c0];

/// The additive constant `beta` of the quadratic L-function, as limbs.
pub const BETA: [u64; 4] = [0x61575f6ac44b3604, 0xe13e1eae05795c4a, 0x48eadb4351118633, 0x163581d4d39df303];

/// The exponent of the forward power map (5).
pub const D_BLS381: [u64; 4] = [0x0000000000000005, 0x0000000000000000, 0x0000000000000000, 0x0000000000000000];

/// The exponent of the inverse power map (the inverse of 5).
pub const D_INV_BLS381: [u64; 4] = [0x33333332cccccccd, 0x217f0e679998f199, 0xe14a56699d73f002, 0x2e5f0fbadd72321c];

/// The round constants of the BLS12-381 instance, as limb constants.
pub const ROUND_CONSTANTS: [[u64; 4]; 33] = [
    [0x39de9523ad2b9b8c, 0xed6c9bb3a0cbc656, 0xc804428b7330dcea, 0x33c9b186ec5c99fd],
    [0x67af54bd55ef3a40, 0x50e54da164c15fcd, 0xddd864c1a1e2f3ff, 0x1ee491ca6d214fc1],
    [0x202ae7230483da1d, 0x51aec912c9bfe490, 0x9b1bd0f310e54ebf, 0x4c1ba4f9340912ab],
    [0xdfe0ec8bdc41be53, 0x02b59fe48cfff2ad, 0xd1de4a46fe46e06b, 0x33aa82199f04c44a],
    [0xfcf80a6e598d9191, 0xfe30503436fc8263, 0xce85e28bb94b1603, 0x3270dc0282750da2],
    [0xebb056d3743dc41f, 0xe63a1377d5c57831, 0x2000c1339886ff1e, 0x15fedb6610d607e3],
    [0x27c2c9d9594e0a2c, 0x6888b7ee9defce8e, 0x2a75a2c9267bc5ca, 0x0067e674c5b6eb85],
    [0x161a05efdc787597, 0x34dc3e0147a5aeba, 0xf6c6fb2bd7d03ed0, 0x0822c0ce664891d2],
    [0x16e6565e9e26a437, 0xb64894c19ce12597, 0x0e31e50d88fa7594, 0x415fec66e44f1fc2],
    [0x2cc041a6cd0cfa7d, 0x56b3455fe9a23b93, 0x2b0aaf3015c9d308, 0x3b779718395bbc6b],
    [0xf5e8b2fb32a836d8, 0xc9d7dc20d8a3e74d, 0x61164f84be5bb1bc, 0x5554f0afd180f658],
    [0x15c3f6a6ad89877f, 0x894323160692008e, 0x20286b020c2c9e7e, 0x0cb32d527b14feef],
    [0xeef20917ba88b34b, 0xde3519f563c0d3bf, 0x3b7633953ae10266, 0x1bfd1cf80505b8c2],
    [0x47008cc05fc91534, 0xe67cf4845a3cef6b, 0x11dd3b52462994a7, 0x2d6751202bc43322],
    [0x0043c27529946067, 0x3ede25f79faa5c25, 0x832b6909bcb65c90, 0x4d67e4602a5d1143],
    [0x36f283caf98554c7, 0x037f3bf9beb929c4, 0x03a84c58b69d1458, 0x6e584505cda4d1ff],
    [0x47a02b1b376450dc, 0x9d04053d8c0c25ed, 0x383520f4cb6832a5, 0x6155433770db3f7c],
    [0x490a9ce851f13d39, 0x581c2b90499e4821, 0xc4a322fdb97f893c, 0x6aee4021c3b85098],
    [0x6c8ee0f68f3aa725, 0x4bbfade5d93329e9, 0x7ac2af7ef1f21ce0, 0x63eab3457edb14df],
    [0x90e4d4a79fe627f8, 0x0fdfc99ce71d905e, 0x43cde0421ef856da, 0x63157169c7b74721],
    [0x99f9b39acfd57173, 0xc7352272e2b4aca0, 0xa6987d1cfecab276, 0x65485ceb49f796ec],
    [0x2074d5d2ee8c3eff, 0x820e9dadd3d667e0, 0x45de5891ab02e857, 0x6162dabcfd6fc28d],
    [0x713b5410ae356409, 0x07eb7c7de9bf4988, 0x531602032d249a5a, 0x6faa20f344870680],
    [0x1e6c2aedea136080, 0x07fab6f858ca255e, 0x63fc8356eaa21ee1, 0x729433e7d6d1e133],
    [0xbeedbe8d89cd1e83, 0xabaad280620e117e, 0x2e4da0578cbf0905, 0x4881eefa44234624],
    [0xfbf8925e21094006, 0x34f07e78097f6bf2, 0xd1e7bd9b3f216395, 0x5bc4dd08c087040c],
    [0x10e0f6b7e5224983, 0x31868bacd28d85c4, 0x61171a9e7bd2e03a, 0x32e12237e567b29d],
    [0xef374361c8dbbaf0, 0x38b1332d187d96df, 0x682d8517c8aca0d2, 0x49c76440c2fbb8fa],
    [0xc26f24ef34c92ecc, 0xa0fd30ba02241015, 0x160ed766168f188a, 0x4567c1e76236b51e],
    [0x66b3f3f337d03791, 0xe27d72c507b0d6dd, 0xf91e39848aae0c7c, 0x1049c524529244ec],
    [0xb62ad1828e234617, 0x2c5abbb63ef22643, 0x414009eb4e89a843, 0x4b45fd753b338337],
    [0x741b0e076bad18fe, 0x610e833ecdf41b64, 0x454bd1e1e2d95dbb, 0x0ae1819493b84236],
    [0x91791bb610763ce1, 0x59f508bc5dfb92b9, 0x93d6ade26d639d3d, 0x69184051c8922f7c],
];

/// The round-constant values of the BLS12-381 instance.
pub open spec fn gr_table_rcs() -> Seq<int> {
    Seq::new(33, |i: int| limbs_val(ROUND_CONSTANTS@[i]@))
}

/// Every limb constant of the BLS12-381 tables is reduced.
pub open spec fn gr_tables_ok() -> bool {
    &&& forall|i: int| 0 <= i < 33 ==> limbs_val(#[trigger] ROUND_CONSTANTS@[i]@) < f_p()
    &&& limbs_val(ALPHA@) < f_p()
    &&& limbs_val(BETA@) < f_p()
}

/// The BLS12-381 Griffin permutation.
pub open spec fn gr_bls_perm(s: Seq<int>) -> Seq<int> {
    gr_perm(
        s,
        gr_table_rcs(),
        limbs_val(D_BLS381@),
        limbs_val(D_INV_BLS381@),
        limbs_val(ALPHA@),
        limbs_val(BETA@),
        N as nat,
    )
}

/// The sponge-hash state fold of the BLS12-381 instance.
pub open spec fn gr_bls_hash_state(tag: u128, ms: Seq<int>) -> Seq<int>
    decreases ms.len(),
{
    if ms.len() == 0 {
        init_st(3, tag)
    } else {
        let p = gr_bls_hash_state(tag, ms.drop_last());
        gr_bls_perm(p.update(0, fadd(p[0], ms.last())))
    }
}

/// The sponge-hash digest of the BLS12-381 instance.
pub open spec fn gr_bls_hash_out(tag: u128, ms: Seq<int>) -> int {
    if ms.len() == 0 {
        gr_bls_perm(init_st(3, tag))[0]
    } else {
        gr_bls_hash_state(tag, ms)[0]
    }
}

/// The sponge-AE state fold of the BLS12-381 instance.
pub open spec fn gr_bls_ae_state(tag: u128, k: int, nv: int, ms: Seq<int>) -> Seq<int>
    decreases ms.len(),
{
    if ms.len() == 0 {
        let st0 = init_st(3, tag);
        let st1 = gr_bls_perm(st0.update(0, fadd(st0[0], k)));
        st1.update(0, fadd(st1[0], nv))
    } else {
        let p = gr_bls_perm(gr_bls_ae_state(tag, k, nv, ms.drop_last()));
        p.update(0, fadd(p[0], ms.last()))
    }
}

/// The sponge-AE output of the BLS12-381 instance: ciphertext blocks, then
/// the tag.
pub open spec fn gr_bls_ae_output(tag: u128, k: int, nv: int, ms: Seq<int>) -> Seq<int> {
    Seq::new(
        ms.len() + 1,
        |i: int|
            if i < ms.len() {
                fadd(gr_bls_perm(gr_bls_ae_state(tag, k, nv, ms.take(i)))[0], ms[i])
            } else {
                gr_bls_perm(gr_bls_ae_state(tag, k, nv, ms))[0]
            },
    )
}

/// Griffin sponge AE is invertible: for reduced message values, each message
/// block is its ciphertext block minus the keystream element, which depends
/// only on the key, the nonce, and the earlier blocks.
pub proof fn lemma_gr_bls_ae_recoverable(tag: u128, k: int, nv: int, ms: Seq<int>)
    requires
        forall|i: int| 0 <= i < ms.len() ==> in_f(#[trigger] ms[i]),
    ensures
        forall|i: int|
            0 <= i < ms.len() ==> fsub(
                #[trigger] gr_bls_ae_output(tag, k, nv, ms)[i],
                gr_bls_perm(gr_bls_ae_state(tag, k, nv, ms.take(i)))[0],
            ) == ms[i],
{
    assert forall|i: int| 0 <= i < ms.len() implies fsub(
        #[trigger] gr_bls_ae_output(tag, k, nv, ms)[i],
        gr_bls_perm(gr_bls_ae_state(tag, k, nv, ms.take(i)))[0],
    ) == ms[i] by {
        lemma_fadd_fsub_cancel(ms[i], gr_bls_perm(gr_bls_ae_state(tag, k, nv, ms.take(i)))[0]);
    }
}

/// Build the BLS12-381 parameters; yields them exactly when the limb tables
/// are reduced (they are).
pub fn griffin_parameters<T: FieldOps>() -> (r: Option<GriffinParameters<T>>)
    ensures
        r matches Some(p) ==> {
            &&& p.wf()
            &&& p.nb_rounds == N
            &&& p.rcs() == gr_table_rcs()
            &&& p.av() == limbs_val(ALPHA@)
            &&& p.bv() == limbs_val(BETA@)
            &&& p.dv() == limbs_val(D_BLS381@)
            &&& p.div() == limbs_val(D_INV_BLS381@)
        },
        r is Some <==> gr_tables_ok(),
{
    let round_constants = match load_elems::<T>(ROUND_CONSTANTS.as_slice()) {
        Some(v) => v,
        None => {
            return None;
        },
    };
    if !crate::field::limbs_reduced(&ALPHA) {
        return None;
    }
    if !crate::field::limbs_reduced(&BETA) {
        return None;
    }
    let alpha = T::from_limbs(&ALPHA);
    let beta = T::from_limbs(&BETA);
    proof {
        assert(fvals(round_constants@) =~= gr_table_rcs());
    }
    Some(
        GriffinParameters {
            nb_rounds: N,
            round_constants,
            alpha,
            beta,
            d: D_BLS381,
            d_inv: D_INV_BLS381,
        },
    )
}

/// Any chip carrying the BLS12-381 tables folds messages to the BLS12-381
/// hash states.
proof fn lemma_gr_bls_hash<T: FieldOps>(c: GriffinChip<T>, tag: u128, ms: Seq<int>)
    requires
        c.parameters.nb_rounds == N,
        c.parameters.rcs() == gr_table_rcs(),
        c.parameters.av() == limbs_val(ALPHA@),
        c.parameters.bv() == limbs_val(BETA@),
        c.parameters.dv() == limbs_val(D_BLS381@),
        c.parameters.div() == limbs_val(D_INV_BLS381@),
    ensures
        hash_state(c, 3, tag, ms) == gr_bls_hash_state(tag, ms),
        hash_out(c, 3, tag, ms) == gr_bls_hash_out(tag, ms),
    decreases ms.len(),
{
    if ms.len() > 0 {
        lemma_gr_bls_hash(c, tag, ms.drop_last());
    }
}

/// Any chip carrying the BLS12-381 tables folds AE transcripts to the
/// BLS12-381 AE states and output.
proof fn lemma_gr_bls_ae<T: FieldOps>(c: GriffinChip<T>, tag: u128, k: int, nv: int, ms: Seq<int>)
    requires
        c.parameters.nb_rounds == N,
        c.parameters.rcs() == gr_table_rcs(),
        c.parameters.av() == limbs_val(ALPHA@),
        c.parameters.bv() == limbs_val(BETA@),
        c.parameters.dv() == limbs_val(D_BLS381@),
        c.parameters.div() == limbs_val(D_INV_BLS381@),
    ensures
        ae_state(c, 3, tag, k, nv, ms) == gr_bls_ae_state(tag, k, nv, ms),
        ae_output(c, 3, tag, k, nv, ms) == gr_bls_ae_output(tag, k, nv, ms),
    decreases ms.len(),
{
    if ms.len() > 0 {
        lemma_gr_bls_ae(c, tag, k, nv, ms.drop_last());
    }
    assert forall|i: int| 0 <= i < ms.len() implies ae_state(c, 3, tag, k, nv, #[trigger] ms.take(i))
        == gr_bls_ae_state(tag, k, nv, ms.take(i)) by {
        lemma_gr_bls_ae_state_only(c, tag, k, nv, ms.take(i));
    }
    assert(ae_output(c, 3, tag, k, nv, ms) =~= gr_bls_ae_output(tag, k, nv, ms));
}

/// The state half of the statement above, for use under the quantifier.
proof fn lemma_gr_bls_ae_state_only<T: FieldOps>(
    c: GriffinChip<T>,
    tag: u128,
    k: int,
    nv: int,
    ms: Seq<int>,
)
    requires
        c.parameters.nb_rounds == N,
        c.parameters.rcs() == gr_table_rcs(),
        c.parameters.av() == limbs_val(ALPHA@),
        c.parameters.bv() == limbs_val(BETA@),
        c.parameters.dv() == limbs_val(D_BLS381@),
        c.parameters.div() == limbs_val(D_INV_BLS381@),
    ensures
        ae_state(c, 3, tag, k, nv, ms) == gr_bls_ae_state(tag, k, nv, ms),
    decreases ms.len(),
{
    if ms.len() > 0 {
        lemma_gr_bls_ae_state_only(c, tag, k, nv, ms.drop_last());
    }
}

/// The BLS12-381 Griffin primitives: sponge hash and sponge AE over native
/// field elements.
pub struct GriffinPrimitivesBlsFr {}

impl GriffinPrimitivesBlsFr {
    /// Hash a message of field elements to one field element.
    pub fn hash(message: &Vec<FPlain>) -> (r: Result<FPlain, ZkError>)
        requires
            message@.len() < 0x8000_0000,
        ensures
            r matches Ok(h) ==> h.fval() == gr_bls_hash_out(
                hash_tag(message@.len()),
                fvals(message@),
            ),
            r matches Err(z) ==> z == ZkError::Synthesis && !gr_tables_ok(),
            gr_tables_ok() ==> r is Ok,
    {
        let parameters = match griffin_parameters::<FPlain>() {
            Some(p) => p,
            None => {
                return Err(ZkError::Synthesis);
            },
        };
        let chip = GriffinChip::new(parameters);
        let ghost c0 = chip;
        let mut sponge = Sponge::new(chip);
        proof {
            assert(all_ok(message@));
        }
        match sponge_hash(&mut sponge, message) {
            Ok(h) => {
                proof {
                    lemma_gr_bls_hash(c0, hash_tag(message@.len()), fvals(message@));
                }
                Ok(h)
            },
            Err(e) => {
                proof {
                    assert(false);
                }
                Err(e)
            },
        }
    }

    /// Encrypt a message under a one-element key and nonce; the result is the
    /// ciphertext blocks followed by the authentication tag.
    pub fn ae(message: &Vec<FPlain>, key: &FPlain, nonce: &FPlain) -> (r: Result<
        Vec<FPlain>,
        ZkError,
    >)
        requires
            message@.len() < 0x4000_0000,
        ensures
            r matches Ok(ct) ==> {
                &&& ct@.len() == message@.len() + 1
                &&& fvals(ct@) == gr_bls_ae_output(
                    ae_tag(message@.len()),
                    key.fval(),
                    nonce.fval(),
                    fvals(message@),
                )
            },
            r matches Err(z) ==> z == ZkError::Synthesis && !gr_tables_ok(),
            gr_tables_ok() ==> r is Ok,
    {
        let parameters = match griffin_parameters::<FPlain>() {
            Some(p) => p,
            None => {
                return Err(ZkError::Synthesis);
            },
        };
        let chip = GriffinChip::new(parameters);
        let ghost c0 = chip;
        let mut sponge = Sponge::new(chip);
        proof {
            assert(all_ok(message@));
        }
        match sponge_ae(&mut sponge, message, key, nonce) {
            Ok(ct) => {
                proof {
                    lemma_gr_bls_ae(
                        c0,
                        ae_tag(message@.len()),
                        key.fval(),
                        nonce.fval(),
                        fvals(message@),
                    );
                }
                Ok(ct)
            },
            Err(e) => {
                proof {
                    assert(false);
                }
                Err(e)
            },
        }
    }
}

} // verus!
